//! A stable insertion sort over a total preorder on keys.

use vstd::prelude::*;

verus! {

/// A total preorder on values, compared through an executable test.
pub trait KeyOrder: Sized {
    /// `self` may come before `other`.
    spec fn key_le(self, other: Self) -> bool;

    proof fn lemma_key_total(a: Self, b: Self)
        ensures
            a.key_le(b) || b.key_le(a),
    ;

    proof fn lemma_key_trans(a: Self, b: Self, c: Self)
        requires
            a.key_le(b),
            b.key_le(c),
        ensures
            a.key_le(c),
    ;

    fn le(&self, other: &Self) -> (r: bool)
        ensures
            r == self.key_le(*other),
    ;
}

/// `s` is ordered by its keys.
pub open spec fn sorted_by_key<T: KeyOrder>(s: Seq<T>) -> bool {
    forall|i: int, j: int| 0 <= i < j < s.len() ==> s[i].key_le(s[j])
}

/// Where a stable insertion puts `x` into the sorted `s`: after every
/// element whose key is not greater.
pub open spec fn insert_pos<T: KeyOrder>(s: Seq<T>, x: T) -> int
    decreases s.len(),
{
    if s.len() == 0 {
        0
    } else if s[0].key_le(x) {
        1 + insert_pos(s.drop_first(), x)
    } else {
        0
    }
}

/// The stable sort of `s`: each element, in input order, inserted after all
/// earlier elements whose keys are not greater than its own.
pub open spec fn stable_sort<T: KeyOrder>(s: Seq<T>) -> Seq<T>
    decreases s.len(),
{
    if s.len() == 0 {
        seq![]
    } else {
        let t = stable_sort(s.drop_last());
        t.insert(insert_pos(t, s.last()), s.last())
    }
}

pub proof fn lemma_insert_pos<T: KeyOrder>(s: Seq<T>, x: T)
    ensures
        0 <= insert_pos(s, x) <= s.len(),
        forall|i: int| 0 <= i < insert_pos(s, x) ==> s[i].key_le(x),
        insert_pos(s, x) < s.len() ==> !s[insert_pos(s, x)].key_le(x),
    decreases s.len(),
{
    if s.len() > 0 && s[0].key_le(x) {
        lemma_insert_pos(s.drop_first(), x);
        let p = insert_pos(s, x);
        assert forall|i: int| 0 <= i < p implies s[i].key_le(x) by {
            if i > 0 {
                assert(s[i] == s.drop_first()[i - 1]);
            }
        }
    }
}

pub proof fn lemma_insert_pos_is<T: KeyOrder>(s: Seq<T>, x: T, j: int)
    requires
        0 <= j <= s.len(),
        forall|i: int| 0 <= i < j ==> s[i].key_le(x),
        j < s.len() ==> !s[j].key_le(x),
    ensures
        insert_pos(s, x) == j,
    decreases s.len(),
{
    if s.len() > 0 && j > 0 {
        lemma_insert_pos_is(s.drop_first(), x, j - 1);
    }
}

pub proof fn lemma_insert_sorted<T: KeyOrder>(t: Seq<T>, x: T)
    requires
        sorted_by_key(t),
    ensures
        sorted_by_key(t.insert(insert_pos(t, x), x)),
{
    lemma_insert_pos(t, x);
    let p = insert_pos(t, x);
    let u = t.insert(p, x);
    assert forall|i: int, j: int| 0 <= i < j < u.len() implies u[i].key_le(u[j]) by {
        if j < p {
        } else if j == p {
        } else if i < p {
            // u[i] <= x and x <= t[p] <= u[j]
            T::lemma_key_total(t[p], x);
            if j - 1 > p {
                T::lemma_key_trans(x, t[p], t[j - 1]);
            }
            T::lemma_key_trans(u[i], x, u[j]);
        } else if i == p {
            T::lemma_key_total(t[p], x);
            if j - 1 > p {
                T::lemma_key_trans(x, t[p], t[j - 1]);
            }
        } else {
        }
    }
}

pub proof fn lemma_stable_sort<T: KeyOrder>(s: Seq<T>)
    ensures
        sorted_by_key(stable_sort(s)),
        stable_sort(s).to_multiset() == s.to_multiset(),
        stable_sort(s).len() == s.len(),
    decreases s.len(),
{
    broadcast use vstd::seq_lib::group_to_multiset_ensures;

    if s.len() > 0 {
        let t = stable_sort(s.drop_last());
        lemma_stable_sort(s.drop_last());
        lemma_insert_pos(t, s.last());
        lemma_insert_sorted(t, s.last());
        assert(s =~= s.drop_last().push(s.last()));
        assert(stable_sort(s).to_multiset() =~= s.to_multiset());
    } else {
        assert(s =~= Seq::<T>::empty());
    }
}

/// Sorts by key, keeping elements with equivalent keys in input order.
pub fn stable_sort_vec<T: KeyOrder>(v: Vec<T>) -> (r: Vec<T>)
    ensures
        r@ == stable_sort(v@),
        sorted_by_key(r@),
        r@.to_multiset() == v@.to_multiset(),
{
    let ghost input = v@;
    let mut rest = v;
    let mut out: Vec<T> = Vec::new();
    let n = rest.len();
    let mut k: usize = 0;
    while k < n
        invariant
            n == input.len(),
            k <= n,
            rest@ == input.skip(k as int),
            out@ == stable_sort(input.take(k as int)),
        decreases n - k,
    {
        assert(rest@.len() > 0);
        let x = rest.remove(0);
        let mut j: usize = 0;
        while j < out.len() && out[j].le(&x)
            invariant
                j <= out.len(),
                forall|i: int| 0 <= i < j ==> out@[i].key_le(x),
            decreases out.len() - j,
        {
            j += 1;
        }
        proof {
            lemma_insert_pos_is(out@, x, j as int);
            assert(input.take(k + 1).drop_last() =~= input.take(k as int));
            assert(x == input[k as int]);
            assert(input.take(k + 1).last() == x);
        }
        out.insert(j, x);
        k += 1;
        assert(rest@ =~= input.skip(k as int));
    }
    assert(input.take(n as int) =~= input);
    proof {
        lemma_stable_sort(input);
    }
    out
}

} // verus!
