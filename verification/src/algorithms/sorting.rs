//! Stable in-place sorting of numbers.

use crate::number::float::Float;
use vstd::prelude::*;

verus! {

/// `s` with `x` put in from the right: `x` passes every trailing element
/// that it is less than, and stops at the first one it is not less than.
pub open spec fn insert_ascending(s: Seq<Float>, x: Float) -> Seq<Float>
    decreases s.len(),
{
    if s.len() > 0 && x.spec_lt(s.last()) {
        insert_ascending(s.drop_last(), x).push(s.last())
    } else {
        s.push(x)
    }
}

/// The elements of `s` in ascending order, equal elements in the order they
/// had. A NaN is less than nothing and nothing is less than it, so it stays
/// where it is put in and nothing passes it.
pub open spec fn ascending(s: Seq<Float>) -> Seq<Float>
    decreases s.len(),
{
    if s.len() == 0 {
        s
    } else {
        insert_ascending(ascending(s.drop_last()), s.last())
    }
}

/// No element of `s` is a NaN.
pub open spec fn all_numbers(s: Seq<Float>) -> bool {
    forall|i: int| 0 <= i < s.len() ==> !(#[trigger] s[i]).spec_is_nan()
}

/// Each element of `s` is less than or equal to every later one.
pub open spec fn is_ascending(s: Seq<Float>) -> bool {
    forall|i: int, j: int| 0 <= i <= j < s.len() ==> (#[trigger] s[i]).spec_le(#[trigger] s[j])
}

/// Putting an element in makes the sequence one longer.
pub proof fn lemma_insert_ascending_len(s: Seq<Float>, x: Float)
    ensures
        insert_ascending(s, x).len() == s.len() + 1,
    decreases s.len(),
{
    if s.len() > 0 && x.spec_lt(s.last()) {
        lemma_insert_ascending_len(s.drop_last(), x);
    }
}

/// Sorting keeps the length.
pub proof fn lemma_ascending_len(s: Seq<Float>)
    ensures
        ascending(s).len() == s.len(),
    decreases s.len(),
{
    if s.len() > 0 {
        lemma_ascending_len(s.drop_last());
        lemma_insert_ascending_len(ascending(s.drop_last()), s.last());
    }
}

/// Putting an element in adds that element and changes nothing else.
pub proof fn lemma_insert_ascending_permutes(s: Seq<Float>, x: Float)
    ensures
        insert_ascending(s, x).to_multiset() == s.to_multiset().insert(x),
    decreases s.len(),
{
    broadcast use vstd::seq_lib::group_to_multiset_ensures;

    if s.len() > 0 && x.spec_lt(s.last()) {
        lemma_insert_ascending_permutes(s.drop_last(), x);
        assert(s.drop_last().push(s.last()) =~= s);
        assert(insert_ascending(s, x).to_multiset() =~= s.to_multiset().insert(x));
    }
}

/// Sorting rearranges: every value occurs as often after as before.
pub proof fn lemma_ascending_permutes(s: Seq<Float>)
    ensures
        ascending(s).to_multiset() == s.to_multiset(),
    decreases s.len(),
{
    broadcast use vstd::seq_lib::group_to_multiset_ensures;

    if s.len() > 0 {
        lemma_ascending_permutes(s.drop_last());
        lemma_insert_ascending_permutes(ascending(s.drop_last()), s.last());
        assert(s.drop_last().push(s.last()) =~= s);
    }
}

/// Putting a number into numbers in ascending order keeps them in ascending
/// order; whatever is at most all of them and the new one is at most all of
/// the result.
pub proof fn lemma_insert_ascending_ordered(s: Seq<Float>, x: Float)
    requires
        all_numbers(s),
        !x.spec_is_nan(),
        is_ascending(s),
    ensures
        all_numbers(insert_ascending(s, x)),
        is_ascending(insert_ascending(s, x)),
        insert_ascending(s, x).len() == s.len() + 1,
        forall|y: Float|
            (forall|i: int| 0 <= i < s.len() ==> y.spec_le(#[trigger] s[i])) && y.spec_le(x)
                ==> forall|i: int|
                0 <= i < s.len() + 1 ==> y.spec_le(#[trigger] insert_ascending(s, x)[i]),
    decreases s.len(),
{
    lemma_insert_ascending_len(s, x);
    let r = insert_ascending(s, x);
    if s.len() > 0 && x.spec_lt(s.last()) {
        let front = s.drop_last();
        assert forall|i: int| 0 <= i < front.len() implies !(#[trigger] front[i]).spec_is_nan() by {
            assert(front[i] == s[i]);
        }
        assert forall|i: int, j: int| 0 <= i <= j < front.len() implies (#[trigger] front[i]).spec_le(
            #[trigger] front[j],
        ) by {
            assert(front[i] == s[i] && front[j] == s[j]);
        }
        lemma_insert_ascending_ordered(front, x);
        let inner = insert_ascending(front, x);
        assert(r == inner.push(s.last()));
        // Every element of `inner` is at most `s.last()`.
        assert forall|i: int| 0 <= i < inner.len() implies (#[trigger] inner[i]).spec_le(
            s.last(),
        ) by {
            lemma_insert_ascending_member(front, x, i);
            if inner[i] != x {
                let k = choose|k: int| 0 <= k < front.len() && front[k] == inner[i];
                assert(s[k].spec_le(s[s.len() - 1]));
            }
        }
        assert forall|i: int, j: int| 0 <= i <= j < r.len() implies (#[trigger] r[i]).spec_le(
            #[trigger] r[j],
        ) by {
            if j < inner.len() {
                assert(r[i] == inner[i] && r[j] == inner[j]);
            } else if i < inner.len() {
                assert(r[i] == inner[i]);
            } else {
                assert(s[s.len() - 1].spec_le(s[s.len() - 1]));
            }
        }
        assert forall|i: int| 0 <= i < r.len() implies !(#[trigger] r[i]).spec_is_nan() by {
            if i < inner.len() {
                assert(r[i] == inner[i]);
            }
        }
        assert forall|y: Float|
            (forall|i: int| 0 <= i < s.len() ==> y.spec_le(#[trigger] s[i])) && y.spec_le(
                x,
            ) implies forall|i: int| 0 <= i < s.len() + 1 ==> y.spec_le(#[trigger] r[i]) by {
            assert forall|i: int| 0 <= i < front.len() implies y.spec_le(#[trigger] front[i]) by {
                assert(front[i] == s[i]);
            }
            assert forall|i: int| 0 <= i < s.len() + 1 implies y.spec_le(#[trigger] r[i]) by {
                if i < inner.len() {
                    assert(r[i] == inner[i]);
                } else {
                    assert(r[i] == s[s.len() - 1]);
                }
            }
        }
    } else {
        assert(r == s.push(x));
        assert forall|i: int, j: int| 0 <= i <= j < r.len() implies (#[trigger] r[i]).spec_le(
            #[trigger] r[j],
        ) by {
            if j < s.len() {
                assert(r[i] == s[i] && r[j] == s[j]);
            } else if i < s.len() {
                assert(r[i] == s[i]);
                assert(s[i].spec_le(s[s.len() - 1]));
            }
        }
        assert forall|i: int| 0 <= i < r.len() implies !(#[trigger] r[i]).spec_is_nan() by {
            if i < s.len() {
                assert(r[i] == s[i]);
            }
        }
    }
}

/// Every element of `insert_ascending(s, x)` is `x` or an element of `s`.
pub proof fn lemma_insert_ascending_member(s: Seq<Float>, x: Float, i: int)
    requires
        0 <= i < s.len() + 1,
    ensures
        insert_ascending(s, x).len() == s.len() + 1,
        insert_ascending(s, x)[i] == x || exists|k: int|
            0 <= k < s.len() && s[k] == insert_ascending(s, x)[i],
    decreases s.len(),
{
    lemma_insert_ascending_len(s, x);
    if s.len() > 0 && x.spec_lt(s.last()) {
        let front = s.drop_last();
        if i < s.len() {
            lemma_insert_ascending_member(front, x, i);
            let r = insert_ascending(front, x);
            if r[i] != x {
                let k = choose|k: int| 0 <= k < front.len() && front[k] == r[i];
                assert(s[k] == insert_ascending(s, x)[i]);
            }
        } else {
            assert(s[s.len() - 1] == insert_ascending(s, x)[i]);
        }
    } else {
        if i < s.len() {
            assert(s[i] == insert_ascending(s, x)[i]);
        }
    }
}

/// Sorting numbers puts them in ascending order.
pub proof fn lemma_ascending_ordered(s: Seq<Float>)
    requires
        all_numbers(s),
    ensures
        all_numbers(ascending(s)),
        is_ascending(ascending(s)),
        ascending(s).len() == s.len(),
    decreases s.len(),
{
    if s.len() > 0 {
        let front = s.drop_last();
        assert forall|i: int| 0 <= i < front.len() implies !(#[trigger] front[i]).spec_is_nan() by {
            assert(front[i] == s[i]);
        }
        lemma_ascending_ordered(front);
        assert(!s[s.len() - 1].spec_is_nan());
        lemma_insert_ascending_ordered(ascending(front), s.last());
    }
}

/// Sorts `data` in place into ascending order, keeping equal elements in
/// the order they had.
pub fn sort_ascending(data: &mut [Float])
    ensures
        final(data)@ == ascending(old(data)@),
        final(data)@.len() == old(data)@.len(),
        final(data)@.to_multiset() == old(data)@.to_multiset(),
        all_numbers(old(data)@) ==> is_ascending(final(data)@),
{
    let ghost start = data@;
    let n = data.len();
    let mut i: usize = 0;
    while i < n
        invariant
            n == data@.len(),
            n == start.len(),
            i <= n,
            ascending(start.take(i as int)).len() == i,
            forall|k: int| 0 <= k < i ==> data@[k] == ascending(start.take(i as int))[k],
            forall|k: int| i <= k < n ==> data@[k] == start[k],
        decreases n - i,
    {
        let x = data[i];
        let ghost sorted = ascending(start.take(i as int));
        let mut j: usize = i;
        assert(sorted.take(i as int) =~= sorted);
        assert(sorted.skip(i as int) =~= Seq::<Float>::empty());
        while j > 0 && x.lt(data[j - 1])
            invariant
                j <= i < n,
                n == data@.len(),
                sorted.len() == i,
                forall|k: int| 0 <= k < j ==> data@[k] == sorted[k],
                forall|k: int| j < k <= i ==> data@[k] == sorted[k - 1],
                forall|k: int| i < k < n ==> data@[k] == start[k],
                insert_ascending(sorted, x) == insert_ascending(sorted.take(j as int), x)
                    + sorted.skip(j as int),
            decreases j,
        {
            let prev = data[j - 1];
            data[j] = prev;
            proof {
                let head = sorted.take(j as int);
                assert(head.last() == prev);
                assert(head.drop_last() =~= sorted.take(j - 1));
                assert(insert_ascending(sorted.take(j - 1), x).push(prev) + sorted.skip(j as int)
                    =~= insert_ascending(sorted.take(j - 1), x) + sorted.skip(j - 1));
            }
            j -= 1;
        }
        data[j] = x;
        proof {
            let head = sorted.take(j as int);
            if j > 0 {
                assert(head.last() == sorted[j - 1]);
            }
            assert(insert_ascending(head, x) == head.push(x));
            assert(start.take(i + 1).drop_last() =~= start.take(i as int));
            assert(start.take(i + 1).last() == x);
            let next = ascending(start.take(i + 1));
            assert(next == head.push(x) + sorted.skip(j as int));
            assert(next.len() == i + 1);
            assert forall|k: int| 0 <= k < i + 1 implies data@[k] == next[k] by {
                if k < j {
                    assert(head[k] == sorted[k]);
                } else if k > j {
                    assert(sorted.skip(j as int)[k - j - 1] == sorted[k - 1]);
                }
            }
        }
        i += 1;
    }
    proof {
        assert(start.take(n as int) =~= start);
        assert(data@ =~= ascending(start));
        lemma_ascending_permutes(start);
        if all_numbers(start) {
            lemma_ascending_ordered(start);
        }
    }
}

} // verus!
