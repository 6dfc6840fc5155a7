//! Quicksort with a random pivot, and sorting in descending order.
use rand::Rng;
use vstd::prelude::*;
use vstd::seq_lib::{lemma_multiset_commutative, to_multiset_contains, to_multiset_update};

verus! {

/// Whether `s` is in ascending order on the positions `lo..=hi`.
pub open spec fn sorted_between(s: Seq<i32>, lo: int, hi: int) -> bool {
    forall|i: int, j: int| lo <= i < j <= hi ==> s[i] <= s[j]
}

/// Whether `new` is `old` with only the positions `lo..=hi` rearranged.
pub open spec fn permuted_between(old: Seq<i32>, new: Seq<i32>, lo: int, hi: int) -> bool {
    &&& new.len() == old.len()
    &&& new.subrange(lo, hi + 1).to_multiset() == old.subrange(lo, hi + 1).to_multiset()
    &&& forall|k: int| 0 <= k < old.len() && (k < lo || k > hi) ==> new[k] == old[k]
}

/// Relies on rand's `thread_rng` and `Uniform::from(lo..=hi)`: a draw
/// from the inclusive range, which must not be empty.
#[verifier::external_body]
fn random_index(lo: usize, hi: usize) -> (r: usize)
    requires
        lo <= hi,
    ensures
        lo <= r <= hi,
{
    rand::thread_rng().sample(rand::distributions::Uniform::from(lo..=hi))
}

proof fn lemma_swap_permutes(s: Seq<i32>, i: int, j: int, lo: int, hi: int)
    requires
        0 <= lo <= i <= hi < s.len(),
        lo <= j <= hi,
    ensures
        permuted_between(s, s.update(i, s[j]).update(j, s[i]), lo, hi),
{
    broadcast use to_multiset_update;
    broadcast use vstd::multiset::group_multiset_axioms;

    let t = s.update(i, s[j]).update(j, s[i]);
    let a = s.subrange(lo, hi + 1);
    let a1 = a.update(i - lo, s[j]);
    assert(s.update(i, s[j]).subrange(lo, hi + 1) =~= a1);
    assert(t.subrange(lo, hi + 1) =~= a1.update(j - lo, s[i]));
    assert(a1.to_multiset() == a.to_multiset().insert(s[j]).remove(s[i]));
    assert(a1.update(j - lo, s[i]).to_multiset() == a1.to_multiset().insert(s[i]).remove(
        a1[j - lo],
    ));
    if i == j {
        assert(a1.update(j - lo, s[i]) =~= a);
    } else {
        assert(a1[j - lo] == s[j]);
        assert(a[i - lo] == s[i]);
        assert(a.contains(s[i]));
        to_multiset_contains(a, s[i]);
        assert(a.to_multiset().insert(s[j]).remove(s[i]).insert(s[i]).remove(s[j])
            =~= a.to_multiset());
    }
}

/// Rearranging a part of a range rearranges the whole range.
proof fn lemma_permuted_widen(s: Seq<i32>, t: Seq<i32>, a: int, b: int, lo: int, hi: int)
    requires
        0 <= lo <= a,
        a <= b + 1,
        b <= hi < s.len(),
        permuted_between(s, t, a, b),
    ensures
        permuted_between(s, t, lo, hi),
{
    broadcast use lemma_multiset_commutative;

    assert(s.subrange(lo, hi + 1) =~= s.subrange(lo, a) + s.subrange(a, b + 1) + s.subrange(
        b + 1,
        hi + 1,
    ));
    assert(t.subrange(lo, hi + 1) =~= t.subrange(lo, a) + t.subrange(a, b + 1) + t.subrange(
        b + 1,
        hi + 1,
    ));
    assert(t.subrange(lo, a) =~= s.subrange(lo, a));
    assert(t.subrange(b + 1, hi + 1) =~= s.subrange(b + 1, hi + 1));
}

/// Rearranging a range keeps an upper bound of its values.
proof fn lemma_permuted_upper(s: Seq<i32>, t: Seq<i32>, lo: int, hi: int, v: i32)
    requires
        0 <= lo,
        hi < s.len(),
        permuted_between(s, t, lo, hi),
        forall|k: int| lo <= k <= hi ==> s[k] <= v,
    ensures
        forall|k: int| lo <= k <= hi ==> t[k] <= v,
{
    broadcast use to_multiset_contains;

    assert forall|k: int| lo <= k <= hi implies t[k] <= v by {
        let ts = t.subrange(lo, hi + 1);
        let ss = s.subrange(lo, hi + 1);
        assert(ts[k - lo] == t[k]);
        assert(ts.contains(t[k]));
        assert(ts.to_multiset().count(t[k]) > 0);
        assert(ss.contains(t[k]));
        let m = choose|m: int| 0 <= m < ss.len() && ss[m] == t[k];
        assert(s[lo + m] == t[k]);
    }
}

/// Rearranging a range keeps a strict lower bound of its values.
proof fn lemma_permuted_lower(s: Seq<i32>, t: Seq<i32>, lo: int, hi: int, v: i32)
    requires
        0 <= lo,
        hi < s.len(),
        permuted_between(s, t, lo, hi),
        forall|k: int| lo <= k <= hi ==> s[k] > v,
    ensures
        forall|k: int| lo <= k <= hi ==> t[k] > v,
{
    broadcast use to_multiset_contains;

    assert forall|k: int| lo <= k <= hi implies t[k] > v by {
        let ts = t.subrange(lo, hi + 1);
        let ss = s.subrange(lo, hi + 1);
        assert(ts[k - lo] == t[k]);
        assert(ts.contains(t[k]));
        assert(ts.to_multiset().count(t[k]) > 0);
        assert(ss.contains(t[k]));
        let m = choose|m: int| 0 <= m < ss.len() && ss[m] == t[k];
        assert(s[lo + m] == t[k]);
    }
}

/// Exchanges two entries.
fn swap(arr: &mut [i32], i: usize, j: usize)
    requires
        i < old(arr)@.len(),
        j < old(arr)@.len(),
    ensures
        final(arr)@ == old(arr)@.update(i as int, old(arr)@[j as int]).update(
            j as int,
            old(arr)@[i as int],
        ),
{
    let a = arr[i];
    let b = arr[j];
    arr[i] = b;
    arr[j] = a;
}

/// Partitions `arr[lo..=hi]` around the value at `pivot_idx`.
///
/// Returns the pivot's final position `p`: the entries before it in the
/// range are at most the pivot, those after it are greater.
pub fn partition(arr: &mut [i32], lo: usize, hi: usize, pivot_idx: usize) -> (p: usize)
    requires
        lo <= pivot_idx <= hi,
        hi < old(arr)@.len(),
    ensures
        lo <= p <= hi,
        permuted_between(old(arr)@, final(arr)@, lo as int, hi as int),
        final(arr)@[p as int] == old(arr)@[pivot_idx as int],
        forall|k: int| lo <= k < p ==> final(arr)@[k] <= final(arr)@[p as int],
        forall|k: int| p < k <= hi ==> final(arr)@[k] > final(arr)@[p as int],
{
    let ghost orig = arr@;
    proof {
        lemma_swap_permutes(arr@, pivot_idx as int, hi as int, lo as int, hi as int);
    }
    swap(arr, pivot_idx, hi);
    let pivot = arr[hi];
    let mut store: usize = lo;
    let mut cur: usize = lo;
    while cur <= hi
        invariant
            lo <= store <= cur <= hi + 1,
            hi < arr@.len(),
            pivot == orig[pivot_idx as int],
            permuted_between(orig, arr@, lo as int, hi as int),
            cur <= hi ==> arr@[hi as int] == pivot,
            cur == hi + 1 ==> store > lo && arr@[store - 1] == pivot,
            forall|k: int| lo <= k < store ==> arr@[k] <= pivot,
            forall|k: int| store <= k < cur ==> arr@[k] > pivot,
        decreases hi + 1 - cur,
    {
        if arr[cur] <= pivot {
            proof {
                lemma_swap_permutes(arr@, cur as int, store as int, lo as int, hi as int);
            }
            swap(arr, cur, store);
            store = store + 1;
        }
        cur = cur + 1;
    }
    store - 1
}

/// Partitions `arr[lo..=hi]` around a pivot drawn at random from the range.
fn randomized_partition(arr: &mut [i32], lo: usize, hi: usize) -> (p: usize)
    requires
        lo <= hi < old(arr)@.len(),
    ensures
        lo <= p <= hi,
        permuted_between(old(arr)@, final(arr)@, lo as int, hi as int),
        forall|k: int| lo <= k < p ==> final(arr)@[k] <= final(arr)@[p as int],
        forall|k: int| p < k <= hi ==> final(arr)@[k] > final(arr)@[p as int],
{
    let pivot_idx = random_index(lo, hi);
    partition(arr, lo, hi, pivot_idx)
}

/// Sorts `arr[lo..=hi]` in ascending order, leaving the rest as it is.
pub fn quick_sort(arr: &mut [i32], lo: usize, hi: usize)
    requires
        lo <= hi < old(arr)@.len(),
    ensures
        permuted_between(old(arr)@, final(arr)@, lo as int, hi as int),
        sorted_between(final(arr)@, lo as int, hi as int),
    decreases hi - lo,
{
    let p = randomized_partition(arr, lo, hi);
    let ghost s1 = arr@;
    let ghost pv = s1[p as int];
    if p > lo {
        quick_sort(arr, lo, p - 1);
        proof {
            lemma_permuted_upper(s1, arr@, lo as int, p - 1, pv);
            lemma_permuted_widen(s1, arr@, lo as int, p - 1, lo as int, hi as int);
        }
    }
    let ghost s2 = arr@;
    if p < hi {
        quick_sort(arr, p + 1, hi);
        proof {
            lemma_permuted_lower(s2, arr@, p + 1, hi as int, pv);
            lemma_permuted_widen(s2, arr@, p + 1, hi as int, lo as int, hi as int);
        }
    }
    proof {
        let s3 = arr@;
        assert(s3[p as int] == pv);
        assert forall|k: int| lo <= k < p implies s3[k] <= pv by {
            assert(s2[k] == s3[k] || p >= hi);
        }
        assert forall|k: int| p < k <= hi implies s3[k] > pv by {
            if p == lo {
                assert(s2[k] == s1[k]);
            }
        }
        assert forall|i: int, j: int| lo <= i < j <= hi implies s3[i] <= s3[j] by {
            if j < p {
                assert(s2[i] == s3[i] && s2[j] == s3[j]);
            }
        }
    }
}

/// Whether `s` is in descending order.
pub open spec fn sorted_desc(s: Seq<i32>) -> bool {
    forall|i: int, j: int| 0 <= i < j < s.len() ==> s[i] >= s[j]
}

/// Sorts `arr` in descending order and returns a copy of the result.
pub fn sort_array(arr: &mut Vec<i32>) -> (r: Vec<i32>)
    ensures
        sorted_desc(final(arr)@),
        final(arr)@.to_multiset() == old(arr)@.to_multiset(),
        r@ == final(arr)@,
{
    let n = arr.len();
    if n > 1 {
        quick_sort(arr.as_mut_slice(), 0, n - 1);
        proof {
            assert(old(arr)@.subrange(0, n as int) =~= old(arr)@);
            assert(arr@.subrange(0, n as int) =~= arr@);
        }
    }
    let ghost asc = arr@;
    let mut desc: Vec<i32> = Vec::new();
    let mut i: usize = n;
    while i > 0
        invariant
            i <= n,
            n == asc.len(),
            arr@ == asc,
            n > 1 ==> sorted_between(asc, 0, n - 1),
            desc@ == asc.subrange(i as int, n as int).reverse(),
        decreases i,
    {
        i = i - 1;
        desc.push(arr[i]);
        assert(desc@ =~= asc.subrange(i as int, n as int).reverse());
    }
    proof {
        assert(asc.subrange(0, n as int) =~= asc);
        asc.lemma_reverse_to_multiset();
    }
    let mut copy: Vec<i32> = Vec::new();
    let mut j: usize = 0;
    while j < desc.len()
        invariant
            j <= desc@.len(),
            copy@ == desc@.subrange(0, j as int),
        decreases desc@.len() - j,
    {
        copy.push(desc[j]);
        j = j + 1;
        assert(copy@ =~= desc@.subrange(0, j as int));
    }
    assert(copy@ =~= desc@);
    *arr = desc;
    copy
}

} // verus!
