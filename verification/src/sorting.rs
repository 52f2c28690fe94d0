//! A verified sort on encoded sort keys.
//!
//! Every ordering this crate needs (coordinate pairs ascending in the IEEE
//! value order, centers descending by weight with input order among ties) is
//! an ascending lexicographic order on a pair of `u64` keys once the caller
//! encodes its elements.  The sorted sequence is pinned exactly: the exec
//! merge sort returns precisely the sequence that the spec-level insertion
//! sort `key_sort` describes, because `key_le` is an antisymmetric total
//! order, under which sortedness and multiset equality determine the
//! sequence uniquely.

use vstd::prelude::*;
use vstd::seq_lib::{
    lemma_multiset_commutative,
    to_multiset_build,
    to_multiset_contains,
    to_multiset_insert,
    to_multiset_len,
    to_multiset_remove,
};

verus! {

broadcast use vstd::multiset::group_multiset_axioms;

/// Ascending lexicographic order on encoded sort keys.
pub open spec fn key_le(a: (u64, u64), b: (u64, u64)) -> bool {
    a.0 < b.0 || (a.0 == b.0 && a.1 <= b.1)
}

/// Insertion of `x` into `s` before the first element that `x` is below or
/// equal to.
pub open spec fn key_insert(x: (u64, u64), s: Seq<(u64, u64)>) -> Seq<(u64, u64)>
    decreases s.len(),
{
    if s.len() == 0 {
        seq![x]
    } else if key_le(x, s[0]) {
        seq![x] + s
    } else {
        seq![s[0]] + key_insert(x, s.drop_first())
    }
}

/// The insertion sort of `s` under `key_le`, defined element by element.
pub open spec fn key_sort(s: Seq<(u64, u64)>) -> Seq<(u64, u64)>
    decreases s.len(),
{
    if s.len() == 0 {
        Seq::<(u64, u64)>::empty()
    } else {
        key_insert(s.last(), key_sort(s.drop_last()))
    }
}

pub open spec fn key_sorted(s: Seq<(u64, u64)>) -> bool {
    forall|i: int, j: int| 0 <= i < j < s.len() ==> key_le(s[i], s[j])
}

pub proof fn lemma_key_insert_len(x: (u64, u64), s: Seq<(u64, u64)>)
    ensures
        key_insert(x, s).len() == s.len() + 1,
    decreases s.len(),
{
    if s.len() == 0 {
    } else if key_le(x, s[0]) {
    } else {
        lemma_key_insert_len(x, s.drop_first());
    }
}

/// Every element of `key_insert(x, s)` is `x` or an element of `s`.
pub proof fn lemma_key_insert_elems(x: (u64, u64), s: Seq<(u64, u64)>)
    ensures
        forall|k: int|
            0 <= k < key_insert(x, s).len() ==> key_insert(x, s)[k] == x || s.contains(
                key_insert(x, s)[k],
            ),
    decreases s.len(),
{
    lemma_key_insert_len(x, s);
    if s.len() == 0 {
    } else if key_le(x, s[0]) {
        assert forall|k: int| 0 <= k < key_insert(x, s).len() implies key_insert(x, s)[k] == x
            || s.contains(key_insert(x, s)[k]) by {
            if k > 0 {
                assert(key_insert(x, s)[k] == s[k - 1]);
            }
        }
    } else {
        lemma_key_insert_elems(x, s.drop_first());
        lemma_key_insert_len(x, s.drop_first());
        assert forall|k: int| 0 <= k < key_insert(x, s).len() implies key_insert(x, s)[k] == x
            || s.contains(key_insert(x, s)[k]) by {
            if k == 0 {
                assert(key_insert(x, s)[0] == s[0]);
            } else {
                let e = key_insert(x, s)[k];
                assert(e == key_insert(x, s.drop_first())[k - 1]);
                if e != x {
                    let i = choose|i: int|
                        0 <= i < s.drop_first().len() && s.drop_first()[i] == e;
                    assert(s[i + 1] == e);
                }
            }
        }
    }
}

pub proof fn lemma_key_insert_sorted(x: (u64, u64), s: Seq<(u64, u64)>)
    requires
        key_sorted(s),
    ensures
        key_sorted(key_insert(x, s)),
    decreases s.len(),
{
    lemma_key_insert_len(x, s);
    if s.len() == 0 {
    } else if key_le(x, s[0]) {
        let r = key_insert(x, s);
        assert forall|i: int, j: int| 0 <= i < j < r.len() implies key_le(r[i], r[j]) by {
            if i == 0 {
                assert(r[0] == x);
                assert(r[j] == s[j - 1]);
                if j - 1 > 0 {
                    assert(key_le(s[0], s[j - 1]));
                }
            } else {
                assert(r[i] == s[i - 1] && r[j] == s[j - 1]);
                assert(key_le(s[i - 1], s[j - 1]));
            }
        }
    } else {
        let t = key_insert(x, s.drop_first());
        lemma_key_insert_sorted(x, s.drop_first());
        lemma_key_insert_elems(x, s.drop_first());
        lemma_key_insert_len(x, s.drop_first());
        let r = key_insert(x, s);
        assert forall|m: int| 0 <= m < t.len() implies key_le(s[0], t[m]) by {
            if t[m] != x {
                let i = choose|i: int|
                    0 <= i < s.drop_first().len() && s.drop_first()[i] == t[m];
                assert(s[i + 1] == t[m]);
            }
        }
        assert forall|i: int, j: int| 0 <= i < j < r.len() implies key_le(r[i], r[j]) by {
            if i == 0 {
                assert(r[j] == t[j - 1]);
            } else {
                assert(r[i] == t[i - 1] && r[j] == t[j - 1]);
            }
        }
    }
}

pub proof fn lemma_key_sort_sorted(s: Seq<(u64, u64)>)
    ensures
        key_sort(s).len() == s.len(),
        key_sorted(key_sort(s)),
    decreases s.len(),
{
    if s.len() == 0 {
    } else {
        lemma_key_sort_sorted(s.drop_last());
        lemma_key_insert_len(s.last(), key_sort(s.drop_last()));
        lemma_key_insert_sorted(s.last(), key_sort(s.drop_last()));
    }
}

/// Every element of `key_sort(s)` is an element of `s`.
pub proof fn lemma_key_sort_elems(s: Seq<(u64, u64)>)
    ensures
        key_sort(s).len() == s.len(),
        forall|k: int| 0 <= k < s.len() ==> s.contains(#[trigger] key_sort(s)[k]),
    decreases s.len(),
{
    if s.len() == 0 {
    } else {
        lemma_key_sort_elems(s.drop_last());
        lemma_key_insert_len(s.last(), key_sort(s.drop_last()));
        lemma_key_insert_elems(s.last(), key_sort(s.drop_last()));
        assert forall|k: int| 0 <= k < s.len() implies s.contains(#[trigger] key_sort(s)[k]) by {
            let e = key_sort(s)[k];
            if e == s.last() {
                assert(s[s.len() - 1] == e);
            } else {
                assert(key_sort(s.drop_last()).contains(e));
                let i = choose|i: int|
                    0 <= i < key_sort(s.drop_last()).len() && key_sort(s.drop_last())[i] == e;
                assert(s.drop_last().contains(key_sort(s.drop_last())[i]));
                let m = choose|m: int|
                    0 <= m < s.drop_last().len() && s.drop_last()[m] == e;
                assert(s[m] == e);
            }
        }
    }
}

/// Inserting into a sequence inserts into its multiset.
pub proof fn lemma_key_insert_multiset(x: (u64, u64), s: Seq<(u64, u64)>)
    ensures
        key_insert(x, s).to_multiset() == s.to_multiset().insert(x),
    decreases s.len(),
{
    if s.len() == 0 {
        assert(key_insert(x, s) =~= s.insert(0, x));
        to_multiset_insert(s, 0, x);
    } else if key_le(x, s[0]) {
        assert(key_insert(x, s) =~= s.insert(0, x));
        to_multiset_insert(s, 0, x);
    } else {
        let t = key_insert(x, s.drop_first());
        lemma_key_insert_multiset(x, s.drop_first());
        assert(key_insert(x, s) =~= t.insert(0, s[0]));
        to_multiset_insert(t, 0, s[0]);
        assert(s =~= s.drop_first().insert(0, s[0]));
        to_multiset_insert(s.drop_first(), 0, s[0]);
        assert(s.drop_first().to_multiset().insert(x).insert(s[0])
            =~= s.drop_first().to_multiset().insert(s[0]).insert(x));
    }
}

/// The spec-level sort keeps the multiset of its input.
pub proof fn lemma_key_sort_multiset(s: Seq<(u64, u64)>)
    ensures
        key_sort(s).to_multiset() == s.to_multiset(),
    decreases s.len(),
{
    if s.len() > 0 {
        lemma_key_sort_multiset(s.drop_last());
        lemma_key_insert_multiset(s.last(), key_sort(s.drop_last()));
        assert(s =~= s.drop_last().push(s.last()));
        to_multiset_build(s.drop_last(), s.last());
    } else {
        assert(key_sort(s) =~= s);
    }
}

/// Under the antisymmetric total order `key_le`, two sorted sequences with
/// one multiset are one sequence.
pub proof fn lemma_sorted_multiset_unique(a: Seq<(u64, u64)>, b: Seq<(u64, u64)>)
    requires
        key_sorted(a),
        key_sorted(b),
        a.to_multiset() == b.to_multiset(),
    ensures
        a == b,
    decreases a.len(),
{
    to_multiset_len(a);
    to_multiset_len(b);
    if a.len() == 0 {
        assert(a =~= b);
    } else {
        to_multiset_contains(a, a[0]);
        to_multiset_contains(b, a[0]);
        to_multiset_contains(b, b[0]);
        to_multiset_contains(a, b[0]);
        assert(a.contains(a[0]));
        assert(b.contains(a[0]));
        let ia = choose|i: int| 0 <= i < b.len() && b[i] == a[0];
        if ia > 0 {
            assert(key_le(b[0], b[ia]));
        }
        assert(b.contains(b[0]));
        assert(a.contains(b[0]));
        let ja = choose|i: int| 0 <= i < a.len() && a[i] == b[0];
        if ja > 0 {
            assert(key_le(a[0], a[ja]));
        }
        assert(a[0] == b[0]);
        let at = a.drop_first();
        let bt = b.drop_first();
        to_multiset_remove(a, 0);
        to_multiset_remove(b, 0);
        assert(a.remove(0) =~= at);
        assert(b.remove(0) =~= bt);
        assert(at.to_multiset() == bt.to_multiset());
        assert forall|i: int, j: int| 0 <= i < j < at.len() implies key_le(at[i], at[j]) by {
            assert(at[i] == a[i + 1] && at[j] == a[j + 1]);
        }
        assert forall|i: int, j: int| 0 <= i < j < bt.len() implies key_le(bt[i], bt[j]) by {
            assert(bt[i] == b[i + 1] && bt[j] == b[j + 1]);
        }
        lemma_sorted_multiset_unique(at, bt);
        assert forall|k: int| 0 <= k < a.len() implies a[k] == b[k] by {
            if k > 0 {
                assert(a[k] == at[k - 1]);
                assert(b[k] == bt[k - 1]);
            }
        }
        assert(a =~= b);
    }
}

pub fn key_le_exec(a: (u64, u64), b: (u64, u64)) -> (r: bool)
    ensures
        r == key_le(a, b),
{
    a.0 < b.0 || (a.0 == b.0 && a.1 <= b.1)
}

/// Merges two sorted runs into one sorted run over the union multiset.
#[verifier::loop_isolation(false)]
fn merge_sorted(a: Vec<(u64, u64)>, b: Vec<(u64, u64)>) -> (r: Vec<(u64, u64)>)
    requires
        key_sorted(a@),
        key_sorted(b@),
    ensures
        key_sorted(r@),
        r@.to_multiset() == a@.to_multiset().add(b@.to_multiset()),
        r@.len() == a@.len() + b@.len(),
    decreases a@.len() + b@.len(),
{
    let mut out: Vec<(u64, u64)> = Vec::new();
    let mut i: usize = 0;
    let mut j: usize = 0;
    proof {
        assert(out@ =~= a@.subrange(0, 0) + b@.subrange(0, 0));
        lemma_multiset_commutative(a@.subrange(0, 0), b@.subrange(0, 0));
    }
    while i < a.len() || j < b.len()
        invariant
            i <= a@.len(),
            j <= b@.len(),
            out@.len() == i + j,
            key_sorted(out@),
            out@.to_multiset() == a@.subrange(0, i as int).to_multiset().add(
                b@.subrange(0, j as int).to_multiset(),
            ),
            forall|m: int|
                0 <= m < out@.len() && i < a@.len() ==> key_le(#[trigger] out@[m], a@[i as int]),
            forall|m: int|
                0 <= m < out@.len() && j < b@.len() ==> key_le(#[trigger] out@[m], b@[j as int]),
        decreases a@.len() - i + b@.len() - j,
    {
        let take_a = if i < a.len() {
            j >= b.len() || key_le_exec(a[i], b[j])
        } else {
            false
        };
        if take_a {
            proof {
                to_multiset_build(out@, a@[i as int]);
                to_multiset_build(a@.subrange(0, i as int), a@[i as int]);
                assert(a@.subrange(0, i + 1 as int) =~= a@.subrange(0, i as int).push(
                    a@[i as int],
                ));
                assert(a@.subrange(0, i as int).to_multiset().add(
                    b@.subrange(0, j as int).to_multiset(),
                ).insert(a@[i as int]) =~= a@.subrange(0, i as int).to_multiset().insert(
                    a@[i as int],
                ).add(b@.subrange(0, j as int).to_multiset()));
                assert(forall|m: int|
                    0 <= m < out@.len() ==> key_le(#[trigger] out@[m], a@[i as int]));
                if i + 1 < a@.len() {
                    assert(key_le(a@[i as int], a@[i as int + 1]));
                }
            }
            out.push(a[i]);
            i = i + 1;
        } else {
            proof {
                to_multiset_build(out@, b@[j as int]);
                to_multiset_build(b@.subrange(0, j as int), b@[j as int]);
                assert(b@.subrange(0, j + 1 as int) =~= b@.subrange(0, j as int).push(
                    b@[j as int],
                ));
                assert(a@.subrange(0, i as int).to_multiset().add(
                    b@.subrange(0, j as int).to_multiset(),
                ).insert(b@[j as int]) =~= a@.subrange(0, i as int).to_multiset().add(
                    b@.subrange(0, j + 1 as int).to_multiset(),
                ));
                assert(j < b@.len());
                assert(forall|m: int|
                    0 <= m < out@.len() ==> key_le(#[trigger] out@[m], b@[j as int]));
                if i < a.len() {
                    assert(key_le(b@[j as int], a@[i as int]));
                }
                if j + 1 < b@.len() {
                    assert(key_le(b@[j as int], b@[j as int + 1]));
                }
            }
            out.push(b[j]);
            j = j + 1;
        }
    }
    proof {
        assert(a@.subrange(0, i as int) =~= a@);
        assert(b@.subrange(0, j as int) =~= b@);
    }
    out
}

/// Sorts by repeated halving and merging; the result is pinned by
/// sortedness and multiset equality.
fn merge_sort_vec(v: Vec<(u64, u64)>) -> (r: Vec<(u64, u64)>)
    ensures
        key_sorted(r@),
        r@.to_multiset() == v@.to_multiset(),
        r@.len() == v@.len(),
    decreases v@.len(),
{
    if v.len() <= 1 {
        return v;
    }
    let mid = v.len() / 2;
    let mut left: Vec<(u64, u64)> = Vec::new();
    let mut i: usize = 0;
    while i < mid
        invariant
            i <= mid,
            mid <= v@.len(),
            left@ == v@.subrange(0, i as int),
        decreases mid - i,
    {
        proof {
            assert(v@.subrange(0, i + 1 as int) =~= v@.subrange(0, i as int).push(v@[i as int]));
        }
        left.push(v[i]);
        i = i + 1;
    }
    let mut right: Vec<(u64, u64)> = Vec::new();
    let mut k: usize = mid;
    while k < v.len()
        invariant
            mid <= k <= v@.len(),
            right@ == v@.subrange(mid as int, k as int),
        decreases v@.len() - k,
    {
        proof {
            assert(v@.subrange(mid as int, k + 1 as int) =~= v@.subrange(
                mid as int,
                k as int,
            ).push(v@[k as int]));
        }
        right.push(v[k]);
        k = k + 1;
    }
    let sorted_left = merge_sort_vec(left);
    let sorted_right = merge_sort_vec(right);
    proof {
        assert(v@ =~= v@.subrange(0, mid as int) + v@.subrange(mid as int, v@.len() as int));
        lemma_multiset_commutative(
            v@.subrange(0, mid as int),
            v@.subrange(mid as int, v@.len() as int),
        );
    }
    merge_sorted(sorted_left, sorted_right)
}

pub fn sort_by_key(input: &Vec<(u64, u64)>) -> (r: Vec<(u64, u64)>)
    ensures
        r@ == key_sort(input@),
        r@.len() == input@.len(),
        key_sorted(r@),
{
    let mut copy: Vec<(u64, u64)> = Vec::new();
    let mut i: usize = 0;
    while i < input.len()
        invariant
            i <= input@.len(),
            copy@ == input@.subrange(0, i as int),
        decreases input@.len() - i,
    {
        proof {
            assert(input@.subrange(0, i + 1 as int) =~= input@.subrange(0, i as int).push(
                input@[i as int],
            ));
        }
        copy.push(input[i]);
        i = i + 1;
    }
    proof {
        assert(input@.subrange(0, input@.len() as int) =~= input@);
    }
    let r = merge_sort_vec(copy);
    proof {
        lemma_key_sort_sorted(input@);
        lemma_key_sort_multiset(input@);
        lemma_sorted_multiset_unique(r@, key_sort(input@));
    }
    r
}

} // verus!
