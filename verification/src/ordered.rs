//! Stable sorting, and maps and sets in the order of their keys.
use crate::text::{
    join, joined, less, lemma_less_irreflexive, lemma_less_total, lemma_less_transitive, text_less,
};
use vstd::prelude::*;

verus! {

/// An order by which values of `T` are sorted.
pub trait Ranking<T: DeepView> {
    /// Whether `a` belongs after `b`.
    spec fn later(a: T::V, b: T::V) -> bool;

    /// Whether `a` belongs after `b`.
    fn is_later(a: &T, b: &T) -> (r: bool)
        ensures
            r == Self::later(a.deep_view(), b.deep_view()),
    ;
}

/// `s` with `x` before those at its end that belong after `x`.
pub open spec fn inserted<T: DeepView, O: Ranking<T>>(s: Seq<T::V>, x: T::V) -> Seq<T::V>
    decreases s.len(),
{
    if s.len() > 0 && O::later(s.last(), x) {
        inserted::<T, O>(s.drop_last(), x).push(s.last())
    } else {
        s.push(x)
    }
}

/// The values of `s` in order; those that belong together keep the order they have.
pub open spec fn sorted<T: DeepView, O: Ranking<T>>(s: Seq<T::V>) -> Seq<T::V>
    decreases s.len(),
{
    if s.len() == 0 {
        Seq::empty()
    } else {
        inserted::<T, O>(sorted::<T, O>(s.drop_last()), s.last())
    }
}

/// Whether no value stands before one that it belongs after.
pub open spec fn in_order<T: DeepView, O: Ranking<T>>(s: Seq<T::V>) -> bool {
    forall|i: int, j: int| 0 <= i < j < s.len() ==> !O::later(#[trigger] s[i], #[trigger] s[j])
}

proof fn lemma_inserted_at<T: DeepView, O: Ranking<T>>(s: Seq<T::V>, x: T::V, n: int)
    requires
        0 <= n <= s.len(),
        forall|k: int| n <= k < s.len() ==> O::later(#[trigger] s[k], x),
        n > 0 ==> !O::later(s[n - 1], x),
    ensures
        inserted::<T, O>(s, x) == s.take(n).push(x) + s.skip(n),
    decreases s.len(),
{
    if n < s.len() {
        let shorter = s.drop_last();
        assert forall|k: int| n <= k < shorter.len() implies O::later(#[trigger] shorter[k], x) by {
            assert(shorter[k] == s[k]);
        }
        lemma_inserted_at::<T, O>(shorter, x, n);
        assert((shorter.take(n).push(x) + shorter.skip(n)).push(s.last()) =~= s.take(n).push(x)
            + s.skip(n));
    } else {
        assert(s.take(n) =~= s);
        assert(s.take(n).push(x) + s.skip(n) =~= s.push(x));
    }
}

/// Sorting keeps the values.
pub proof fn lemma_sorted_keeps<T: DeepView, O: Ranking<T>>(s: Seq<T::V>)
    ensures
        sorted::<T, O>(s).to_multiset() == s.to_multiset(),
        sorted::<T, O>(s).len() == s.len(),
    decreases s.len(),
{
    broadcast use vstd::seq_lib::group_to_multiset_ensures;

    if s.len() > 0 {
        let shorter = s.drop_last();
        lemma_sorted_keeps::<T, O>(shorter);
        lemma_inserted_keeps::<T, O>(sorted::<T, O>(shorter), s.last());
        assert(s =~= shorter.push(s.last()));
    } else {
        assert(s =~= Seq::empty());
    }
}

/// Inserting adds the value and keeps the others.
pub proof fn lemma_inserted_keeps<T: DeepView, O: Ranking<T>>(s: Seq<T::V>, x: T::V)
    ensures
        inserted::<T, O>(s, x).to_multiset() == s.to_multiset().insert(x),
        inserted::<T, O>(s, x).len() == s.len() + 1,
    decreases s.len(),
{
    broadcast use vstd::seq_lib::group_to_multiset_ensures;

    if s.len() > 0 && O::later(s.last(), x) {
        let shorter = s.drop_last();
        lemma_inserted_keeps::<T, O>(shorter, x);
        assert(s =~= shorter.push(s.last()));
        assert(shorter.to_multiset().insert(x).insert(s.last()) =~= shorter.to_multiset().insert(
            s.last(),
        ).insert(x));
    }
}

/// Inserting splits the sequence at one place.
pub proof fn lemma_inserted_splits<T: DeepView, O: Ranking<T>>(s: Seq<T::V>, x: T::V) -> (n: int)
    ensures
        0 <= n <= s.len(),
        inserted::<T, O>(s, x) == s.take(n).push(x) + s.skip(n),
        forall|k: int| n <= k < s.len() ==> O::later(#[trigger] s[k], x),
        n > 0 ==> !O::later(s[n - 1], x),
    decreases s.len(),
{
    if s.len() > 0 && O::later(s.last(), x) {
        let shorter = s.drop_last();
        let n = lemma_inserted_splits::<T, O>(shorter, x);
        assert forall|k: int| n <= k < s.len() implies O::later(#[trigger] s[k], x) by {
            if k < shorter.len() {
                assert(shorter[k] == s[k]);
            }
        }
        if n > 0 {
            assert(shorter[n - 1] == s[n - 1]);
        }
        assert((shorter.take(n).push(x) + shorter.skip(n)).push(s.last()) =~= s.take(n).push(x)
            + s.skip(n));
        n
    } else {
        let n = s.len() as int;
        assert(s.take(n).push(x) + s.skip(n) =~= s.push(x));
        n
    }
}

/// What is in order already is left as it is.
pub proof fn lemma_sorted_is_stable<T: DeepView, O: Ranking<T>>(s: Seq<T::V>)
    requires
        in_order::<T, O>(s),
    ensures
        sorted::<T, O>(s) == s,
    decreases s.len(),
{
    if s.len() > 0 {
        let shorter = s.drop_last();
        assert forall|i: int, j: int| 0 <= i < j < shorter.len() implies !O::later(
            #[trigger] shorter[i],
            #[trigger] shorter[j],
        ) by {
            assert(shorter[i] == s[i] && shorter[j] == s[j]);
        }
        lemma_sorted_is_stable::<T, O>(shorter);
        if shorter.len() > 0 {
            assert(shorter.last() == s[s.len() - 2]);
        }
        assert(s =~= shorter.push(s.last()));
    } else {
        assert(s =~= Seq::empty());
    }
}

/// Whether of two values at most one belongs after the other, and values that do not belong after
/// others do not belong after those that these do not belong after.
pub open spec fn is_ranking<T: DeepView, O: Ranking<T>>() -> bool {
    &&& forall|a: T::V, b: T::V| #[trigger] O::later(a, b) ==> !O::later(b, a)
    &&& forall|a: T::V, b: T::V, c: T::V|
        !(#[trigger] O::later(a, b)) && !(#[trigger] O::later(b, c)) ==> !O::later(a, c)
}

/// Sorted values are in order.
pub proof fn lemma_sorted_in_order<T: DeepView, O: Ranking<T>>(s: Seq<T::V>)
    requires
        is_ranking::<T, O>(),
    ensures
        in_order::<T, O>(sorted::<T, O>(s)),
    decreases s.len(),
{
    if s.len() > 0 {
        let before = sorted::<T, O>(s.drop_last());
        let x = s.last();
        lemma_sorted_in_order::<T, O>(s.drop_last());
        let n = lemma_inserted_splits::<T, O>(before, x);
        let r = sorted::<T, O>(s);
        assert forall|i: int, j: int| 0 <= i < j < r.len() implies !O::later(
            #[trigger] r[i],
            #[trigger] r[j],
        ) by {
            if i < n && j == n {
                assert(r[i] == before[i] && r[j] == x);
                if i < n - 1 {
                    assert(!O::later(before[i], before[n - 1]));
                    assert(!O::later(before[n - 1], x));
                }
            } else if i == n {
                assert(r[i] == x && r[j] == before[j - 1]);
                assert(O::later(before[j - 1], x));
            } else {
                let a = if i < n {
                    i
                } else {
                    i - 1
                };
                let b = if j < n {
                    j
                } else {
                    j - 1
                };
                assert(r[i] == before[a] && r[j] == before[b]);
            }
        }
    }
}

/// Whether of two different values of `s` one belongs after the other.
pub open spec fn are_ranked<T: DeepView, O: Ranking<T>>(s: Seq<T::V>) -> bool {
    forall|a: T::V, b: T::V|
        s.contains(a) && s.contains(b) && a != b ==> #[trigger] O::later(a, b) || O::later(b, a)
}

proof fn lemma_in_order_is_unique<T: DeepView, O: Ranking<T>>(s: Seq<T::V>, t: Seq<T::V>)
    requires
        in_order::<T, O>(s),
        in_order::<T, O>(t),
        are_ranked::<T, O>(s),
        s.to_multiset() == t.to_multiset(),
    ensures
        s == t,
    decreases s.len(),
{
    broadcast use vstd::seq_lib::group_to_multiset_ensures;

    assert(s.len() == s.to_multiset().len() && t.len() == t.to_multiset().len());
    if s.len() > 0 {
        let (x, y) = (s.last(), t.last());
        assert(s.to_multiset().contains(x) && t.to_multiset().contains(y));
        assert(t.contains(x) && s.contains(y));
        if x != y {
            let i = choose|i: int| 0 <= i < t.len() && t[i] == x;
            let j = choose|j: int| 0 <= j < s.len() && s[j] == y;
            assert(!O::later(t[i], t[t.len() - 1]));
            assert(!O::later(s[j], s[s.len() - 1]));
            assert(O::later(x, y) || O::later(y, x));
        }
        let (shorter, other) = (s.drop_last(), t.drop_last());
        assert(s =~= shorter.push(x) && t =~= other.push(x));
        assert(s.to_multiset() =~= shorter.to_multiset().insert(x));
        assert(t.to_multiset() =~= other.to_multiset().insert(x));
        assert(shorter.to_multiset() =~= s.to_multiset().remove(x));
        assert(other.to_multiset() =~= t.to_multiset().remove(x));
        assert forall|i: int, j: int| 0 <= i < j < shorter.len() implies !O::later(
            #[trigger] shorter[i],
            #[trigger] shorter[j],
        ) by {
            assert(shorter[i] == s[i] && shorter[j] == s[j]);
        }
        assert forall|i: int, j: int| 0 <= i < j < other.len() implies !O::later(
            #[trigger] other[i],
            #[trigger] other[j],
        ) by {
            assert(other[i] == t[i] && other[j] == t[j]);
        }
        assert forall|a: T::V, b: T::V|
            shorter.contains(a) && shorter.contains(b) && a != b implies #[trigger] O::later(a, b)
            || O::later(b, a) by {
            let i = choose|i: int| 0 <= i < shorter.len() && shorter[i] == a;
            let j = choose|j: int| 0 <= j < shorter.len() && shorter[j] == b;
            assert(s[i] == a && s[j] == b);
        }
        lemma_in_order_is_unique::<T, O>(shorter, other);
    } else {
        assert(s =~= t);
    }
}

/// The same values, in whatever order they stand, are sorted in one way where of two different ones
/// one belongs after the other.
pub proof fn lemma_sorted_is_unique<T: DeepView, O: Ranking<T>>(s: Seq<T::V>, t: Seq<T::V>)
    requires
        is_ranking::<T, O>(),
        are_ranked::<T, O>(s),
        s.to_multiset() == t.to_multiset(),
    ensures
        sorted::<T, O>(s) == sorted::<T, O>(t),
{
    broadcast use vstd::seq_lib::group_to_multiset_ensures;

    lemma_sorted_in_order::<T, O>(s);
    lemma_sorted_in_order::<T, O>(t);
    lemma_sorted_keeps::<T, O>(s);
    lemma_sorted_keeps::<T, O>(t);
    let r = sorted::<T, O>(s);
    assert forall|a: T::V, b: T::V| r.contains(a) && r.contains(b) && a != b implies (
    #[trigger] O::later(a, b)) || O::later(b, a) by {
        assert(r.to_multiset().contains(a) && r.to_multiset().contains(b));
        assert(s.contains(a) && s.contains(b));
    }
    lemma_in_order_is_unique::<T, O>(r, sorted::<T, O>(t));
}

/// Inserts `x` before those at the end of `v` that belong after it.
pub fn insert_sorted<T: DeepView, O: Ranking<T>>(v: &mut Vec<T>, x: T)
    ensures
        final(v).deep_view() == inserted::<T, O>(old(v).deep_view(), x.deep_view()),
{
    let ghost before = v.deep_view();
    let mut n: usize = v.len();
    while n > 0 && O::is_later(&v[n - 1], &x)
        invariant
            n <= v@.len(),
            *v == *old(v),
            before == v.deep_view(),
            forall|k: int| n <= k < v@.len() ==> O::later(#[trigger] before[k], x.deep_view()),
        decreases n,
    {
        assert(before[n - 1] == v@[n - 1].deep_view());
        n = n - 1;
    }
    proof {
        if n > 0 {
            assert(before[n - 1] == v@[n - 1].deep_view());
        }
        lemma_inserted_at::<T, O>(before, x.deep_view(), n as int);
    }
    v.insert(n, x);
    assert(v.deep_view() =~= before.take(n as int).push(x.deep_view()) + before.skip(n as int));
}

/// Sorts `v`; values that belong together keep the order they have.
pub fn sort<T: DeepView, O: Ranking<T>>(v: Vec<T>) -> (r: Vec<T>)
    ensures
        r.deep_view() == sorted::<T, O>(v.deep_view()),
{
    let ghost all = v.deep_view();
    let mut r: Vec<T> = Vec::new();
    assert(r.deep_view() =~= sorted::<T, O>(all.take(0)));
    for x in it: v
        invariant
            it.seq().len() == all.len(),
            forall|k: int| 0 <= k < all.len() ==> (#[trigger] it.seq()[k]).deep_view() == all[k],
            r.deep_view() == sorted::<T, O>(all.take(it.index())),
    {
        proof {
            let n = it.index();
            assert(all.take(n + 1).drop_last() =~= all.take(n));
            assert(all.take(n + 1).last() == x.deep_view());
        }
        insert_sorted::<T, O>(&mut r, x);
    }
    assert(all.take(all.len() as int) =~= all);
    r
}

/// A key by which maps are ordered.
pub trait Key: DeepView + Sized {
    /// Whether `a` stands before `b`.
    spec fn before(a: Self::V, b: Self::V) -> bool;

    /// Whether the key stands before `other`.
    fn is_before(&self, other: &Self) -> (r: bool)
        ensures
            r == Self::before(self.deep_view(), other.deep_view()),
    ;

    /// No key stands before itself, and of two different keys one stands before the other.
    proof fn is_total(a: Self::V, b: Self::V)
        ensures
            !Self::before(a, a),
            Self::before(a, b) || Self::before(b, a) || a == b,
    ;

    /// What stands before a key stands before the keys after it.
    proof fn is_transitive(a: Self::V, b: Self::V, c: Self::V)
        requires
            Self::before(a, b),
            Self::before(b, c),
        ensures
            Self::before(a, c),
    ;
}

impl Key for String {
    open spec fn before(a: Seq<char>, b: Seq<char>) -> bool {
        text_less(a, b)
    }

    fn is_before(&self, other: &Self) -> (r: bool) {
        less(self.as_str(), other.as_str())
    }

    proof fn is_total(a: Seq<char>, b: Seq<char>) {
        lemma_less_irreflexive(a);
        lemma_less_total(a, b);
    }

    proof fn is_transitive(a: Seq<char>, b: Seq<char>, c: Seq<char>) {
        lemma_less_transitive(a, b, c);
    }
}

/// The place in `m` of the key `k`, or where it would stand.
pub open spec fn place<K: Key, V>(m: Seq<(K::V, V)>, k: K::V) -> int
    decreases m.len(),
{
    if m.len() == 0 || K::before(m.last().0, k) {
        m.len() as int
    } else {
        place::<K, V>(m.drop_last(), k)
    }
}

/// Whether `m` has the key `k`.
pub open spec fn holds_key<K: Key, V>(m: Seq<(K::V, V)>, k: K::V) -> bool {
    let p = place::<K, V>(m, k);
    p < m.len() && !K::before(k, m[p].0)
}

/// What `m` holds under the key `k`.
pub open spec fn lookup<K: Key, V>(m: Seq<(K::V, V)>, k: K::V) -> Option<V> {
    if holds_key::<K, V>(m, k) {
        Some(m[place::<K, V>(m, k)].1)
    } else {
        None
    }
}

/// `m` with `value` under the key `k`.
pub open spec fn put<K: Key, V>(m: Seq<(K::V, V)>, k: K::V, value: V) -> Seq<(K::V, V)> {
    let p = place::<K, V>(m, k);
    if holds_key::<K, V>(m, k) {
        m.update(p, (m[p].0, value))
    } else {
        m.insert(p, (k, value))
    }
}

/// Whether the keys of `m` stand in order, none of them twice.
pub open spec fn keys_increase<K: Key, V>(m: Seq<(K::V, V)>) -> bool {
    forall|i: int, j: int|
        0 <= i < j < m.len() ==> K::before((#[trigger] m[i]).0, (#[trigger] m[j]).0)
}

/// A place is within its map, and what stands from it on is not before the key.
pub proof fn lemma_place<K: Key, V>(m: Seq<(K::V, V)>, k: K::V)
    ensures
        0 <= place::<K, V>(m, k) <= m.len(),
        place::<K, V>(m, k) > 0 ==> K::before(m[place::<K, V>(m, k) - 1].0, k),
        forall|i: int|
            place::<K, V>(m, k) <= i < m.len() ==> !K::before((#[trigger] m[i]).0, k),
    decreases m.len(),
{
    if m.len() > 0 && !K::before(m.last().0, k) {
        let shorter = m.drop_last();
        lemma_place::<K, V>(shorter, k);
        let p = place::<K, V>(shorter, k);
        if p > 0 {
            assert(shorter[p - 1] == m[p - 1]);
        }
        assert forall|i: int| p <= i < m.len() implies !K::before((#[trigger] m[i]).0, k) by {
            if i < shorter.len() {
                assert(shorter[i] == m[i]);
            }
        }
    }
}

pub proof fn lemma_place_is<K: Key, V>(m: Seq<(K::V, V)>, k: K::V, n: int)
    requires
        0 <= n <= m.len(),
        n > 0 ==> K::before(m[n - 1].0, k),
        forall|i: int| n <= i < m.len() ==> !K::before((#[trigger] m[i]).0, k),
    ensures
        place::<K, V>(m, k) == n,
    decreases m.len(),
{
    if n < m.len() {
        let shorter = m.drop_last();
        if n > 0 {
            assert(shorter[n - 1] == m[n - 1]);
        }
        assert forall|i: int| n <= i < shorter.len() implies !K::before(
            (#[trigger] shorter[i]).0,
            k,
        ) by {
            assert(shorter[i] == m[i]);
        }
        lemma_place_is::<K, V>(shorter, k, n);
    }
}

/// A key that a map in order holds stands at its place.
pub proof fn lemma_has<K: Key, V>(m: Seq<(K::V, V)>, k: K::V)
    requires
        keys_increase::<K, V>(m),
    ensures
        holds_key::<K, V>(m, k) <==> exists|i: int| 0 <= i < m.len() && (#[trigger] m[i]).0 == k,
        holds_key::<K, V>(m, k) ==> m[place::<K, V>(m, k)].0 == k,
{
    lemma_place::<K, V>(m, k);
    let p = place::<K, V>(m, k);
    if p < m.len() {
        K::is_total(m[p].0, k);
    }
    if exists|i: int| 0 <= i < m.len() && (#[trigger] m[i]).0 == k {
        let i = choose|i: int| 0 <= i < m.len() && (#[trigger] m[i]).0 == k;
        K::is_total(k, k);
        if i < p {
            if i < p - 1 {
                K::is_transitive(m[i].0, m[p - 1].0, k);
            }
        } else if i > p {
            K::is_total(m[p].0, k);
        }
    }
}

/// Putting a value keeps the keys in order.
pub proof fn lemma_put_in_order<K: Key, V>(m: Seq<(K::V, V)>, k: K::V, value: V)
    requires
        keys_increase::<K, V>(m),
    ensures
        keys_increase::<K, V>(put::<K, V>(m, k, value)),
{
    lemma_place::<K, V>(m, k);
    let p = place::<K, V>(m, k);
    let r = put::<K, V>(m, k, value);
    if holds_key::<K, V>(m, k) {
        assert forall|i: int, j: int| 0 <= i < j < r.len() implies K::before(
            (#[trigger] r[i]).0,
            (#[trigger] r[j]).0,
        ) by {
            assert(r[i].0 == m[i].0 && r[j].0 == m[j].0);
        }
    } else {
        assert forall|i: int, j: int| 0 <= i < j < r.len() implies K::before(
            (#[trigger] r[i]).0,
            (#[trigger] r[j]).0,
        ) by {
            if i < p && j == p {
                if i < p - 1 {
                    assert(K::before(m[i].0, m[p - 1].0));
                    K::is_transitive(m[i].0, m[p - 1].0, k);
                }
            } else if i == p {
                assert(r[j] == m[j - 1]);
                K::is_total(m[p].0, k);
                if K::before(k, m[p].0) {
                    if j - 1 > p {
                        assert(K::before(m[p].0, m[j - 1].0));
                        K::is_transitive(k, m[p].0, m[j - 1].0);
                    }
                }
            } else {
                let a = if i < p {
                    m[i]
                } else {
                    m[i - 1]
                };
                let b = if j < p {
                    m[j]
                } else {
                    m[j - 1]
                };
                assert(r[i] == a && r[j] == b);
            }
        }
    }
}

/// What was put under a key is found there, and under every other key what was there before.
pub proof fn lemma_put_lookup<K: Key, V>(m: Seq<(K::V, V)>, k: K::V, value: V, other: K::V)
    requires
        keys_increase::<K, V>(m),
    ensures
        lookup::<K, V>(put::<K, V>(m, k, value), k) == Some(value),
        other != k ==> lookup::<K, V>(put::<K, V>(m, k, value), other) == lookup::<K, V>(m, other),
{
    let r = put::<K, V>(m, k, value);
    let p = place::<K, V>(m, k);
    lemma_place::<K, V>(m, k);
    lemma_put_in_order::<K, V>(m, k, value);
    lemma_has::<K, V>(m, k);
    lemma_has::<K, V>(r, k);
    assert(r[p].0 == k && r[p].1 == value);
    lemma_unique_key::<K, V>(r, k, p);
    if other != k {
        lemma_has::<K, V>(m, other);
        lemma_has::<K, V>(r, other);
        lemma_place::<K, V>(m, other);
        lemma_place::<K, V>(r, other);
        let added = !holds_key::<K, V>(m, k);
        if holds_key::<K, V>(m, other) {
            let q = place::<K, V>(m, other);
            let at = if added && q >= p {
                q + 1
            } else {
                q
            };
            assert(r[at] == m[q]);
            lemma_unique_key::<K, V>(r, other, at);
        }
        if holds_key::<K, V>(r, other) {
            let q = place::<K, V>(r, other);
            let at = if added && q > p {
                q - 1
            } else {
                q
            };
            assert(r[q] == m[at]);
            lemma_unique_key::<K, V>(m, other, at);
        }
    }
}

proof fn lemma_unique_key<K: Key, V>(m: Seq<(K::V, V)>, k: K::V, at: int)
    requires
        keys_increase::<K, V>(m),
        0 <= at < m.len(),
        m[at].0 == k,
    ensures
        holds_key::<K, V>(m, k),
        place::<K, V>(m, k) == at,
{
    lemma_has::<K, V>(m, k);
    lemma_place::<K, V>(m, k);
    let p = place::<K, V>(m, k);
    K::is_total(k, k);
    if p < at {
        assert(K::before(m[p].0, m[at].0));
    }
    if at < p {
        assert(K::before(m[at].0, m[p].0));
    }
}

/// What stands in a map in order is found under its key.
pub proof fn lemma_entry_is_found<K: Key, V>(m: Seq<(K::V, V)>, at: int)
    requires
        keys_increase::<K, V>(m),
        0 <= at < m.len(),
    ensures
        lookup::<K, V>(m, m[at].0) == Some(m[at].1),
{
    lemma_unique_key::<K, V>(m, m[at].0, at);
}

/// The keys of a map in order differ.
pub proof fn lemma_keys_differ<K: Key, V>(m: Seq<(K::V, V)>, i: int, j: int)
    requires
        keys_increase::<K, V>(m),
        0 <= i < j < m.len(),
    ensures
        m[i].0 != m[j].0,
{
    K::is_total(m[i].0, m[j].0);
}

/// Whether all entries of `m` are as `p` asks of key and value.
pub open spec fn all_entries<K: Key, V>(
    m: Seq<(K::V, V)>,
    p: spec_fn(K::V, V) -> bool,
) -> bool {
    forall|i: int| 0 <= i < m.len() ==> p((#[trigger] m[i]).0, m[i].1)
}

/// Where all entries are as `p` asks, what is found under a key is so with it.
pub proof fn lemma_lookup_entry<K: Key, V>(
    m: Seq<(K::V, V)>,
    k: K::V,
    p: spec_fn(K::V, V) -> bool,
)
    requires
        keys_increase::<K, V>(m),
        all_entries::<K, V>(m, p),
    ensures
        lookup::<K, V>(m, k) is Some ==> p(k, lookup::<K, V>(m, k)->0),
{
    lemma_place::<K, V>(m, k);
    lemma_has::<K, V>(m, k);
    let at = place::<K, V>(m, k);
    if holds_key::<K, V>(m, k) {
        assert(p(m[at].0, m[at].1));
    }
}

/// Where all entries are as `p` asks, they are so with one more such entry.
pub proof fn lemma_put_entries<K: Key, V>(
    m: Seq<(K::V, V)>,
    k: K::V,
    value: V,
    p: spec_fn(K::V, V) -> bool,
)
    requires
        keys_increase::<K, V>(m),
        all_entries::<K, V>(m, p),
        p(k, value),
    ensures
        all_entries::<K, V>(put::<K, V>(m, k, value), p),
{
    lemma_place::<K, V>(m, k);
    lemma_has::<K, V>(m, k);
    let n = place::<K, V>(m, k);
    let r = put::<K, V>(m, k, value);
    assert forall|i: int| 0 <= i < r.len() implies p((#[trigger] r[i]).0, r[i].1) by {
        if holds_key::<K, V>(m, k) {
            if i != n {
                assert(r[i] == m[i]);
                assert(p(m[i].0, m[i].1));
            }
        } else if i < n {
            assert(r[i] == m[i]);
            assert(p(m[i].0, m[i].1));
        } else if i > n {
            assert(r[i] == m[i - 1]);
            assert(p(m[i - 1].0, m[i - 1].1));
        }
    }
}

/// Whether all values of `m` are as `p` asks.
pub open spec fn all_values<K: Key, V>(m: Seq<(K::V, V)>, p: spec_fn(V) -> bool) -> bool {
    forall|i: int| 0 <= i < m.len() ==> p((#[trigger] m[i]).1)
}

/// Where all values are as `p` asks, what is found is so too.
pub proof fn lemma_lookup_value<K: Key, V>(m: Seq<(K::V, V)>, k: K::V, p: spec_fn(V) -> bool)
    requires
        all_values::<K, V>(m, p),
    ensures
        lookup::<K, V>(m, k) is Some ==> p(lookup::<K, V>(m, k)->0),
{
    lemma_place::<K, V>(m, k);
}

/// Where all values are as `p` asks, they are so with one more such value.
pub proof fn lemma_put_values<K: Key, V>(
    m: Seq<(K::V, V)>,
    k: K::V,
    value: V,
    p: spec_fn(V) -> bool,
)
    requires
        all_values::<K, V>(m, p),
        p(value),
    ensures
        all_values::<K, V>(put::<K, V>(m, k, value), p),
{
    lemma_place::<K, V>(m, k);
    let n = place::<K, V>(m, k);
    let r = put::<K, V>(m, k, value);
    assert forall|i: int| 0 <= i < r.len() implies p((#[trigger] r[i]).1) by {
        if holds_key::<K, V>(m, k) {
            if i != n {
                assert(r[i] == m[i]);
            }
        } else if i < n {
            assert(r[i] == m[i]);
        } else if i > n {
            assert(r[i] == m[i - 1]);
        }
    }
}

/// The sum of `f` over the values of `m`.
pub open spec fn sum_values<K: Key, V>(m: Seq<(K::V, V)>, f: spec_fn(V) -> int) -> int
    decreases m.len(),
{
    if m.len() == 0 {
        0
    } else {
        sum_values::<K, V>(m.drop_last(), f) + f(m.last().1)
    }
}

proof fn lemma_sum_parts<K: Key, V>(
    a: Seq<(K::V, V)>,
    b: Seq<(K::V, V)>,
    f: spec_fn(V) -> int,
)
    ensures
        sum_values::<K, V>(a + b, f) == sum_values::<K, V>(a, f) + sum_values::<K, V>(b, f),
    decreases b.len(),
{
    if b.len() == 0 {
        assert(a + b =~= a);
    } else {
        assert((a + b).drop_last() =~= a + b.drop_last());
        lemma_sum_parts::<K, V>(a, b.drop_last(), f);
    }
}

/// Putting a value under a key changes a sum by what the value has more than the one it replaces.
pub proof fn lemma_put_sum<K: Key, V>(
    m: Seq<(K::V, V)>,
    k: K::V,
    value: V,
    f: spec_fn(V) -> int,
)
    ensures
        sum_values::<K, V>(put::<K, V>(m, k, value), f) == sum_values::<K, V>(m, f) + f(value) - (
        match lookup::<K, V>(m, k) {
            Some(held) => f(held),
            None => 0,
        }),
{
    lemma_place::<K, V>(m, k);
    let n = place::<K, V>(m, k);
    let r = put::<K, V>(m, k, value);
    let one = seq![(k, value)];
    assert(one.drop_last() =~= Seq::empty());
    if holds_key::<K, V>(m, k) {
        let new = seq![(m[n].0, value)];
        let old_one = seq![m[n]];
        assert(new.drop_last() =~= Seq::empty());
        assert(old_one.drop_last() =~= Seq::empty());
        assert(sum_values::<K, V>(new, f) == f(value)) by {
            assert(sum_values::<K, V>(new.drop_last(), f) == 0);
        }
        assert(sum_values::<K, V>(old_one, f) == f(m[n].1)) by {
            assert(sum_values::<K, V>(old_one.drop_last(), f) == 0);
        }
        assert(m =~= m.take(n) + old_one + m.skip(n + 1));
        assert(r =~= m.take(n) + new + m.skip(n + 1));
        lemma_sum_parts::<K, V>(m.take(n) + old_one, m.skip(n + 1), f);
        lemma_sum_parts::<K, V>(m.take(n), old_one, f);
        lemma_sum_parts::<K, V>(m.take(n) + new, m.skip(n + 1), f);
        lemma_sum_parts::<K, V>(m.take(n), new, f);
    } else {
        assert(sum_values::<K, V>(one, f) == f(value)) by {
            assert(sum_values::<K, V>(one.drop_last(), f) == 0);
        }
        assert(m =~= m.take(n) + m.skip(n));
        assert(r =~= m.take(n) + one + m.skip(n));
        lemma_sum_parts::<K, V>(m.take(n), m.skip(n), f);
        lemma_sum_parts::<K, V>(m.take(n) + one, m.skip(n), f);
        lemma_sum_parts::<K, V>(m.take(n), one, f);
    }
}

/// A value is no more than the sum over all of them, where none is negative.
pub proof fn lemma_value_in_sum<K: Key, V>(m: Seq<(K::V, V)>, k: K::V, f: spec_fn(V) -> int)
    requires
        forall|i: int| 0 <= i < m.len() ==> f((#[trigger] m[i]).1) >= 0,
    ensures
        0 <= sum_values::<K, V>(m, f),
        lookup::<K, V>(m, k) is Some ==> 0 <= f(lookup::<K, V>(m, k)->0) <= sum_values::<K, V>(
            m,
            f,
        ),
{
    lemma_place::<K, V>(m, k);
    lemma_sum_bounds::<K, V>(m, f);
}

proof fn lemma_sum_bounds<K: Key, V>(m: Seq<(K::V, V)>, f: spec_fn(V) -> int)
    requires
        forall|i: int| 0 <= i < m.len() ==> f((#[trigger] m[i]).1) >= 0,
    ensures
        0 <= sum_values::<K, V>(m, f),
        forall|i: int| 0 <= i < m.len() ==> f((#[trigger] m[i]).1) <= sum_values::<K, V>(m, f),
    decreases m.len(),
{
    if m.len() > 0 {
        let shorter = m.drop_last();
        assert forall|i: int| 0 <= i < shorter.len() implies f((#[trigger] shorter[i]).1) >= 0 by {
            assert(shorter[i] == m[i]);
        }
        lemma_sum_bounds::<K, V>(shorter, f);
        assert forall|i: int| 0 <= i < m.len() implies f((#[trigger] m[i]).1) <= sum_values::<
            K,
            V,
        >(m, f) by {
            if i < shorter.len() {
                assert(shorter[i] == m[i]);
            }
        }
    }
}

/// A map whose entries stand in the order of their keys.
#[derive(Debug)]
pub struct OrderedMap<K, T> {
    pub entries: Vec<(K, T)>,
}

impl<K: DeepView, T: DeepView> DeepView for OrderedMap<K, T> {
    type V = Seq<(K::V, T::V)>;

    open spec fn deep_view(&self) -> Seq<(K::V, T::V)> {
        self.entries.deep_view()
    }
}

impl<K: Key, T: DeepView> OrderedMap<K, T> {
    /// A map without entries.
    pub fn new() -> (r: Self)
        ensures
            r.deep_view() == Seq::<(K::V, T::V)>::empty(),
    {
        let r = OrderedMap { entries: Vec::new() };
        assert(r.deep_view() =~= Seq::empty());
        r
    }

    /// The place of a key, or where it would stand, and whether the map has it.
    pub fn slot(&self, key: &K) -> (r: (usize, bool))
        ensures
            r.0 == place::<K, T::V>(self.deep_view(), key.deep_view()),
            r.1 == holds_key::<K, T::V>(self.deep_view(), key.deep_view()),
            r.0 <= self.entries@.len(),
            r.1 ==> r.0 < self.entries@.len(),
    {
        let ghost m = self.deep_view();
        let mut n: usize = self.entries.len();
        while n > 0 && !self.entries[n - 1].0.is_before(key)
            invariant
                n <= self.entries@.len(),
                m == self.deep_view(),
                forall|i: int|
                    n <= i < m.len() ==> !K::before((#[trigger] m[i]).0, key.deep_view()),
            decreases n,
        {
            assert(m[n - 1] == self.entries@[n - 1].deep_view());
            n = n - 1;
        }
        proof {
            if n > 0 {
                assert(m[n - 1] == self.entries@[n - 1].deep_view());
            }
            lemma_place_is::<K, T::V>(m, key.deep_view(), n as int);
        }
        if n < self.entries.len() {
            assert(m[n as int] == self.entries@[n as int].deep_view());
            (n, !key.is_before(&self.entries[n].0))
        } else {
            (n, false)
        }
    }

    /// What the map holds under a key.
    pub fn get(&self, key: &K) -> (r: Option<&T>)
        ensures
            r.deep_view() == lookup::<K, T::V>(self.deep_view(), key.deep_view()),
    {
        let (n, found) = self.slot(key);
        if found {
            assert(self.deep_view()[n as int] == self.entries@[n as int].deep_view());
            Some(&self.entries[n].1)
        } else {
            None
        }
    }

    /// Puts a value under a key.
    pub fn put(&mut self, key: K, value: T)
        ensures
            final(self).deep_view() == put::<K, T::V>(
                old(self).deep_view(),
                key.deep_view(),
                value.deep_view(),
            ),
    {
        let ghost before = self.deep_view();
        let ghost (k, v) = (key.deep_view(), value.deep_view());
        let (n, found) = self.slot(&key);
        if found {
            let (held, _) = self.entries.remove(n);
            self.entries.insert(n, (held, value));
            assert(self.deep_view() =~= put::<K, T::V>(before, k, v));
        } else {
            self.entries.insert(n, (key, value));
            assert(self.deep_view() =~= put::<K, T::V>(before, k, v));
        }
    }

    /// The value under a key, which is `fallback` where the map has none yet.
    pub fn entry(&mut self, key: K, fallback: T) -> (r: &mut T)
        ensures
            r.deep_view() == (match lookup::<K, T::V>(old(self).deep_view(), key.deep_view()) {
                Some(value) => value,
                None => fallback.deep_view(),
            }),
            final(self).deep_view() == put::<K, T::V>(
                old(self).deep_view(),
                key.deep_view(),
                final(r).deep_view(),
            ),
    {
        let ghost before = self.deep_view();
        let (n, found) = self.slot(&key);
        if !found {
            self.entries.insert(n, (key, fallback));
        }
        &mut self.entries[n].1
    }
}

impl Key for i64 {
    open spec fn before(a: i64, b: i64) -> bool {
        a < b
    }

    fn is_before(&self, other: &Self) -> (r: bool) {
        *self < *other
    }

    proof fn is_total(a: i64, b: i64) {
    }

    proof fn is_transitive(a: i64, b: i64, c: i64) {
    }
}

/// Pairs are ordered by their first part, and by the second where the first is the same.
impl<A: Key, B: Key> Key for (A, B) {
    open spec fn before(a: (A::V, B::V), b: (A::V, B::V)) -> bool {
        A::before(a.0, b.0) || (!A::before(b.0, a.0) && B::before(a.1, b.1))
    }

    fn is_before(&self, other: &Self) -> (r: bool) {
        self.0.is_before(&other.0) || (!other.0.is_before(&self.0) && self.1.is_before(&other.1))
    }

    proof fn is_total(a: (A::V, B::V), b: (A::V, B::V)) {
        A::is_total(a.0, b.0);
        A::is_total(b.0, a.0);
        B::is_total(a.1, b.1);
    }

    proof fn is_transitive(a: (A::V, B::V), b: (A::V, B::V), c: (A::V, B::V)) {
        A::is_total(a.0, b.0);
        A::is_total(b.0, c.0);
        A::is_total(a.0, c.0);
        if A::before(a.0, b.0) && A::before(b.0, c.0) {
            A::is_transitive(a.0, b.0, c.0);
        }
        if !A::before(a.0, b.0) && !A::before(b.0, c.0) {
            B::is_transitive(a.1, b.1, c.1);
        }
    }
}

/// Whether one list of keys stands before another: by the first keys in which they differ, and a
/// list before those that go on where it ends.
pub open spec fn list_before<K: Key>(a: Seq<K::V>, b: Seq<K::V>) -> bool
    decreases a.len(),
{
    if b.len() == 0 {
        false
    } else if a.len() == 0 {
        true
    } else {
        K::before(a[0], b[0]) || (!K::before(b[0], a[0]) && list_before::<K>(a.skip(1), b.skip(1)))
    }
}

/// No list stands before itself, and of two different lists one stands before the other.
pub proof fn lemma_list_total<K: Key>(a: Seq<K::V>, b: Seq<K::V>)
    ensures
        !list_before::<K>(a, a),
        list_before::<K>(a, b) || list_before::<K>(b, a) || a == b,
    decreases a.len(),
{
    if a.len() > 0 {
        K::is_total(a[0], a[0]);
        lemma_list_total::<K>(a.skip(1), a.skip(1));
        if b.len() > 0 {
            K::is_total(a[0], b[0]);
            lemma_list_total::<K>(a.skip(1), b.skip(1));
            if !list_before::<K>(a, b) && !list_before::<K>(b, a) {
                assert(a =~= seq![a[0]] + a.skip(1));
                assert(b =~= seq![b[0]] + b.skip(1));
            }
        }
    } else if b.len() == 0 {
        assert(a =~= b);
    }
}

/// What stands before a list stands before the lists after it.
pub proof fn lemma_list_transitive<K: Key>(a: Seq<K::V>, b: Seq<K::V>, c: Seq<K::V>)
    requires
        list_before::<K>(a, b),
        list_before::<K>(b, c),
    ensures
        list_before::<K>(a, c),
    decreases a.len(),
{
    if a.len() > 0 {
        K::is_total(a[0], b[0]);
        K::is_total(b[0], c[0]);
        K::is_total(a[0], c[0]);
        if K::before(a[0], b[0]) && K::before(b[0], c[0]) {
            K::is_transitive(a[0], b[0], c[0]);
        }
        if !K::before(a[0], b[0]) && !K::before(b[0], c[0]) {
            lemma_list_transitive::<K>(a.skip(1), b.skip(1), c.skip(1));
        }
    }
}

/// Whether one list of keys stands before another.
pub fn list_is_before<K: Key>(a: &Vec<K>, b: &Vec<K>) -> (r: bool)
    ensures
        r == list_before::<K>(a.deep_view(), b.deep_view()),
{
    let ghost (x, y) = (a.deep_view(), b.deep_view());
    assert(x.skip(0) =~= x && y.skip(0) =~= y);
    let mut i: usize = 0;
    while i < a.len() && i < b.len()
        invariant
            i <= a@.len(),
            i <= b@.len(),
            x == a.deep_view(),
            y == b.deep_view(),
            list_before::<K>(x, y) == list_before::<K>(x.skip(i as int), y.skip(i as int)),
        decreases a@.len() - i,
    {
        assert(x.skip(i as int)[0] == a@[i as int].deep_view());
        assert(y.skip(i as int)[0] == b@[i as int].deep_view());
        assert(x.skip(i as int).skip(1) =~= x.skip(i + 1));
        assert(y.skip(i as int).skip(1) =~= y.skip(i + 1));
        if a[i].is_before(&b[i]) {
            return true;
        }
        if b[i].is_before(&a[i]) {
            return false;
        }
        i = i + 1;
    }
    i < b.len()
}

/// The place of a text in a set, or where it would stand.
pub open spec fn text_place(s: Seq<Seq<char>>, k: Seq<char>) -> int
    decreases s.len(),
{
    if s.len() == 0 || text_less(s.last(), k) {
        s.len() as int
    } else {
        text_place(s.drop_last(), k)
    }
}

/// A set of texts with `k` in it.
pub open spec fn with_text(s: Seq<Seq<char>>, k: Seq<char>) -> Seq<Seq<char>> {
    let p = text_place(s, k);
    if p < s.len() && !text_less(k, s[p]) {
        s
    } else {
        s.insert(p, k)
    }
}

/// A set of texts with those of `more` in it.
pub open spec fn with_texts(s: Seq<Seq<char>>, more: Seq<Seq<char>>) -> Seq<Seq<char>>
    decreases more.len(),
{
    if more.len() == 0 {
        s
    } else {
        with_text(with_texts(s, more.drop_last()), more.last())
    }
}

/// A set of texts with `k` in it where `wanted`.
pub open spec fn with_text_if(s: Seq<Seq<char>>, wanted: bool, k: Seq<char>) -> Seq<Seq<char>> {
    if wanted {
        with_text(s, k)
    } else {
        s
    }
}

/// Whether texts stand in order, none of them twice.
pub open spec fn texts_increase(s: Seq<Seq<char>>) -> bool {
    forall|i: int, j: int|
        0 <= i < j < s.len() ==> text_less(#[trigger] s[i], #[trigger] s[j])
}

proof fn lemma_text_place(s: Seq<Seq<char>>, k: Seq<char>)
    ensures
        0 <= text_place(s, k) <= s.len(),
        text_place(s, k) > 0 ==> text_less(s[text_place(s, k) - 1], k),
        forall|i: int| text_place(s, k) <= i < s.len() ==> !text_less(#[trigger] s[i], k),
    decreases s.len(),
{
    if s.len() > 0 && !text_less(s.last(), k) {
        let shorter = s.drop_last();
        lemma_text_place(shorter, k);
        let p = text_place(shorter, k);
        if p > 0 {
            assert(shorter[p - 1] == s[p - 1]);
        }
        assert forall|i: int| p <= i < s.len() implies !text_less(#[trigger] s[i], k) by {
            if i < shorter.len() {
                assert(shorter[i] == s[i]);
            }
        }
    }
}

proof fn lemma_text_place_is(s: Seq<Seq<char>>, k: Seq<char>, n: int)
    requires
        0 <= n <= s.len(),
        n > 0 ==> text_less(s[n - 1], k),
        forall|i: int| n <= i < s.len() ==> !text_less(#[trigger] s[i], k),
    ensures
        text_place(s, k) == n,
    decreases s.len(),
{
    if n < s.len() {
        let shorter = s.drop_last();
        if n > 0 {
            assert(shorter[n - 1] == s[n - 1]);
        }
        assert forall|i: int| n <= i < shorter.len() implies !text_less(#[trigger] shorter[i], k) by {
            assert(shorter[i] == s[i]);
        }
        lemma_text_place_is(shorter, k, n);
    }
}

/// Adding a text to a set in order keeps it in order, keeps its texts, and puts the text in.
pub proof fn lemma_with_text(s: Seq<Seq<char>>, k: Seq<char>)
    requires
        texts_increase(s),
    ensures
        texts_increase(with_text(s, k)),
        forall|t: Seq<char>| #[trigger]
            with_text(s, k).contains(t) <==> s.contains(t) || t == k,
{
    lemma_text_place(s, k);
    let p = text_place(s, k);
    let r = with_text(s, k);
    if p < s.len() && !text_less(k, s[p]) {
        lemma_less_total(s[p], k);
        assert(s[p] == k);
    } else {
        assert forall|i: int, j: int| 0 <= i < j < r.len() implies text_less(
            #[trigger] r[i],
            #[trigger] r[j],
        ) by {
            if i < p && j == p {
                if i < p - 1 {
                    lemma_less_transitive(s[i], s[p - 1], k);
                }
            } else if i == p {
                assert(r[j] == s[j - 1]);
                if j - 1 > p {
                    lemma_less_transitive(k, s[p], s[j - 1]);
                }
            } else {
                let a = if i < p {
                    s[i]
                } else {
                    s[i - 1]
                };
                let b = if j < p {
                    s[j]
                } else {
                    s[j - 1]
                };
                assert(r[i] == a && r[j] == b);
            }
        }
        assert forall|t: Seq<char>| #[trigger] r.contains(t) <==> s.contains(t) || t == k by {
            if s.contains(t) {
                let i = s.index_of(t);
                if i < p {
                    assert(r[i] == t);
                } else {
                    assert(r[i + 1] == t);
                }
            }
            if t == k {
                assert(r[p] == t);
            }
            if r.contains(t) {
                let i = r.index_of(t);
                if i < p {
                    assert(s[i] == t);
                } else if i > p {
                    assert(s[i - 1] == t);
                }
            }
        }
    }
}

/// Adding several texts keeps the order, and the set then holds them and what it held.
pub proof fn lemma_with_texts(s: Seq<Seq<char>>, more: Seq<Seq<char>>)
    requires
        texts_increase(s),
    ensures
        texts_increase(with_texts(s, more)),
        forall|t: Seq<char>| #[trigger]
            with_texts(s, more).contains(t) <==> s.contains(t) || more.contains(t),
    decreases more.len(),
{
    if more.len() > 0 {
        let shorter = more.drop_last();
        lemma_with_texts(s, shorter);
        lemma_with_text(with_texts(s, shorter), more.last());
        assert forall|t: Seq<char>| #[trigger] with_texts(s, more).contains(t) <==> s.contains(t)
            || more.contains(t) by {
            assert(more.contains(t) <==> shorter.contains(t) || t == more.last()) by {
                if shorter.contains(t) {
                    let i = choose|i: int| 0 <= i < shorter.len() && shorter[i] == t;
                    assert(more[i] == t);
                }
                if more.contains(t) && t != more.last() {
                    let i = choose|i: int| 0 <= i < more.len() && more[i] == t;
                    assert(shorter[i] == t);
                }
                assert(more[more.len() - 1] == more.last());
            }
            assert(with_texts(s, shorter).contains(t) <==> s.contains(t) || shorter.contains(t));
        }
    }
}

/// Two sets with the same texts are one.
pub proof fn lemma_texts_are_equal(s: Seq<Seq<char>>, t: Seq<Seq<char>>)
    requires
        texts_increase(s),
        texts_increase(t),
        forall|x: Seq<char>| #[trigger] s.contains(x) <==> t.contains(x),
    ensures
        s == t,
    decreases s.len(),
{
    if s.len() == 0 {
        if t.len() > 0 {
            assert(t.contains(t[0]));
            assert(s.contains(t[0]));
        }
        assert(s =~= t);
    } else {
        assert(s.contains(s[0]));
        assert(t.contains(s[0]));
        let (x, y) = (s.last(), t.last());
        assert(s[s.len() - 1] == x && t[t.len() - 1] == y);
        assert(s.contains(x) && t.contains(y));
        assert(t.contains(x) && s.contains(y));
        let i = choose|i: int| 0 <= i < t.len() && t[i] == x;
        let j = choose|j: int| 0 <= j < s.len() && s[j] == y;
        if i < t.len() - 1 && j < s.len() - 1 {
            assert(text_less(t[i], t[t.len() - 1]));
            assert(text_less(s[j], s[s.len() - 1]));
            lemma_less_transitive(x, y, x);
            lemma_less_irreflexive(x);
        }
        assert(x == y);
        let (a, b) = (s.drop_last(), t.drop_last());
        assert forall|z: Seq<char>| #[trigger] a.contains(z) <==> b.contains(z) by {
            if a.contains(z) {
                let n = choose|n: int| 0 <= n < a.len() && a[n] == z;
                assert(s[n] == z);
                assert(text_less(s[n], s[s.len() - 1]));
                lemma_less_irreflexive(x);
                assert(s.contains(z));
                assert(t.contains(z));
                let m = choose|m: int| 0 <= m < t.len() && t[m] == z;
                assert(b[m] == z);
            }
            if b.contains(z) {
                let n = choose|n: int| 0 <= n < b.len() && b[n] == z;
                assert(t[n] == z);
                assert(text_less(t[n], t[t.len() - 1]));
                lemma_less_irreflexive(x);
                assert(t.contains(z));
                assert(s.contains(z));
                let m = choose|m: int| 0 <= m < s.len() && s[m] == z;
                assert(a[m] == z);
            }
        }
        assert forall|i: int, j: int| 0 <= i < j < a.len() implies text_less(
            #[trigger] a[i],
            #[trigger] a[j],
        ) by {
            assert(a[i] == s[i] && a[j] == s[j]);
        }
        assert forall|i: int, j: int| 0 <= i < j < b.len() implies text_less(
            #[trigger] b[i],
            #[trigger] b[j],
        ) by {
            assert(b[i] == t[i] && b[j] == t[j]);
        }
        lemma_texts_are_equal(a, b);
        assert(s =~= a.push(x) && t =~= b.push(y));
    }
}

/// Adding a set that was added to is adding to the set that was added.
pub proof fn lemma_texts_associate(s: Seq<Seq<char>>, t: Seq<Seq<char>>, more: Seq<Seq<char>>)
    requires
        texts_increase(s),
        texts_increase(t),
    ensures
        with_texts(s, with_texts(t, more)) == with_texts(with_texts(s, t), more),
{
    lemma_with_texts(t, more);
    lemma_with_texts(s, with_texts(t, more));
    lemma_with_texts(s, t);
    lemma_with_texts(with_texts(s, t), more);
    let (a, b) = (with_texts(s, with_texts(t, more)), with_texts(with_texts(s, t), more));
    assert forall|x: Seq<char>| #[trigger] a.contains(x) <==> b.contains(x) by {
        assert(with_texts(t, more).contains(x) <==> t.contains(x) || more.contains(x));
        assert(with_texts(s, t).contains(x) <==> s.contains(x) || t.contains(x));
    }
    lemma_texts_are_equal(a, b);
}

/// A set of texts, in order.
#[derive(Debug)]
pub struct TextSet {
    pub items: Vec<String>,
}

impl DeepView for TextSet {
    type V = Seq<Seq<char>>;

    open spec fn deep_view(&self) -> Seq<Seq<char>> {
        self.items.deep_view()
    }
}

impl TextSet {
    /// A set without texts.
    pub fn new() -> (r: Self)
        ensures
            r.deep_view() == Seq::<Seq<char>>::empty(),
    {
        let r = TextSet { items: Vec::new() };
        assert(r.deep_view() =~= Seq::empty());
        r
    }

    /// Puts a text into the set, and says whether it was not there.
    pub fn insert(&mut self, text: &str) -> (added: bool)
        ensures
            final(self).deep_view() == with_text(old(self).deep_view(), text@),
            added <==> final(self).deep_view() != old(self).deep_view(),
    {
        let ghost before = self.deep_view();
        let mut n: usize = self.items.len();
        while n > 0 && !less(self.items[n - 1].as_str(), text)
            invariant
                n <= self.items@.len(),
                *self == *old(self),
                before == self.deep_view(),
                forall|i: int| n <= i < before.len() ==> !text_less(#[trigger] before[i], text@),
            decreases n,
        {
            assert(before[n - 1] == self.items@[n - 1]@);
            n = n - 1;
        }
        proof {
            if n > 0 {
                assert(before[n - 1] == self.items@[n - 1]@);
            }
            lemma_text_place_is(before, text@, n as int);
        }
        if n < self.items.len() {
            assert(before[n as int] == self.items@[n as int]@);
            if !less(text, self.items[n].as_str()) {
                return false;
            }
        }
        self.items.insert(n, text.to_owned());
        assert(self.deep_view() =~= before.insert(n as int, text@));
        assert(self.deep_view().len() == before.len() + 1);
        true
    }

    /// Puts texts into the set.
    pub fn extend(&mut self, texts: &Vec<String>)
        ensures
            final(self).deep_view() == with_texts(old(self).deep_view(), texts.deep_view()),
    {
        let ghost before = self.deep_view();
        let ghost all = texts.deep_view();
        let mut i: usize = 0;
        while i < texts.len()
            invariant
                i <= texts@.len(),
                all == texts.deep_view(),
                self.deep_view() == with_texts(before, all.take(i as int)),
            decreases texts@.len() - i,
        {
            self.insert(texts[i].as_str());
            assert(all.take(i + 1).drop_last() =~= all.take(i as int));
            assert(all.take(i + 1).last() == texts@[i as int]@);
            i = i + 1;
        }
        assert(all.take(i as int) =~= all);
    }

    /// A copy of the set.
    pub fn copy(&self) -> (r: Self)
        ensures
            r.deep_view() == self.deep_view(),
    {
        TextSet { items: copy_texts(&self.items) }
    }

    /// The texts with commas between them; none where there are no texts.
    pub fn join(&self) -> (r: Option<String>)
        ensures
            r.deep_view() == joined_set(self.deep_view()),
    {
        if self.items.len() == 0 {
            None
        } else {
            Some(join(&self.items, ","))
        }
    }
}

/// The texts of a set with commas between them; none where there are no texts.
pub open spec fn joined_set(s: Seq<Seq<char>>) -> Option<Seq<char>> {
    if s.len() == 0 {
        None
    } else {
        Some(joined(s, ","@))
    }
}

/// A copy of texts.
pub fn copy_texts(texts: &Vec<String>) -> (r: Vec<String>)
    ensures
        r.deep_view() == texts.deep_view(),
{
    let mut r: Vec<String> = Vec::new();
    let mut i: usize = 0;
    while i < texts.len()
        invariant
            i <= texts@.len(),
            r@.len() == i,
            forall|k: int| 0 <= k < i ==> (#[trigger] r@[k])@ == texts@[k]@,
        decreases texts@.len() - i,
    {
        r.push(texts[i].clone());
        i = i + 1;
    }
    assert(r.deep_view() =~= texts.deep_view());
    r
}

} // verus!
