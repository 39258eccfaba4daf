//! Shape algebra: pure functions over shape descriptors and permutations,
//! with no tensor dependency.

use vstd::prelude::*;

verus! {

/// `v` occurs among the entries of `o`.
pub open spec fn occurs_in(o: Seq<usize>, v: int) -> bool {
    exists|i: int| 0 <= i < o.len() && o[i] == v
}

/// `o` is a permutation of `0 .. n`: it has length `n`, every entry is below
/// `n`, no entry repeats, and every index below `n` occurs.
pub open spec fn is_permutation(o: Seq<usize>, n: nat) -> bool {
    &&& o.len() == n
    &&& forall|i: int| 0 <= i < n ==> (#[trigger] o[i]) < n
    &&& forall|i: int, j: int|
        #![trigger o[i], o[j]]
        0 <= i < n && 0 <= j < n && i != j ==> o[i] != o[j]
    &&& forall|v: int| 0 <= v < n ==> #[trigger] occurs_in(o, v)
}

/// The shape that a reduction over `axes` leaves behind: every reduced axis
/// collapses to size 1, every other axis keeps its size.
pub open spec fn reduced_shape(s: Seq<usize>, axes: Seq<usize>) -> Seq<usize> {
    Seq::new(s.len(), |i: int| if axes.contains(i as usize) { 1usize } else { s[i] })
}

/// `s` can be broadcast to `t`: equal rank, and every axis either already
/// matches or has size 1 in `s`.
pub open spec fn expandable_to(s: Seq<usize>, t: Seq<usize>) -> bool {
    &&& s.len() == t.len()
    &&& forall|i: int| 0 <= i < s.len() ==> (#[trigger] s[i]) == t[i] || s[i] == 1
}

/// The shape after reordering axes by `o`: axis `i` of the result is axis
/// `o[i]` of the original.
pub open spec fn permuted_shape(s: Seq<usize>, o: Seq<usize>) -> Seq<usize> {
    Seq::new(o.len(), |i: int| s[o[i] as int])
}

/// The permutation that undoes `o`: position `j` holds the index at which
/// `o` takes the value `j`.
pub open spec fn inverse_of(o: Seq<usize>) -> Seq<usize> {
    Seq::new(o.len(), |j: int| (choose|i: int| 0 <= i < o.len() && o[i] == j) as usize)
}

/// The ordered sequence of axis indices at which two shapes of equal rank
/// disagree.
pub open spec fn differing_axes(s: Seq<usize>, t: Seq<usize>) -> Seq<usize>
    decreases s.len(),
{
    if s.len() == 0 {
        Seq::empty()
    } else {
        differing_axes(s.drop_last(), t.drop_last()) + if s.last() == t.last() {
            Seq::empty()
        } else {
            seq![(s.len() - 1) as usize]
        }
    }
}

/// The ordered list of axis indices at which two shapes of equal rank
/// disagree. This recovers which axes were broadcast or reduced when only
/// the before/after shapes are known. Callers must guarantee equal ranks;
/// a rank mismatch is a caller bug, not a recoverable error.
pub fn shape_to_axes(old_shape: &[usize], new_shape: &[usize]) -> (axes: Vec<usize>)
    requires
        old_shape@.len() == new_shape@.len(),
    ensures
        axes@ == differing_axes(old_shape@, new_shape@),
        forall|k: int|
            0 <= k < axes@.len() ==> (#[trigger] axes@[k]) < old_shape@.len()
                && old_shape@[axes@[k] as int] != new_shape@[axes@[k] as int],
        forall|i: int|
            0 <= i < old_shape@.len() && old_shape@[i] != new_shape@[i]
                ==> axes@.contains(i as usize),
        forall|k1: int, k2: int| 0 <= k1 < k2 < axes@.len() ==> axes@[k1] < axes@[k2],
{
    let mut axes: Vec<usize> = Vec::new();
    let mut i: usize = 0;
    proof {
        assert(axes@ =~= differing_axes(old_shape@.take(0), new_shape@.take(0)));
    }
    while i < old_shape.len()
        invariant
            i <= old_shape@.len(),
            old_shape@.len() == new_shape@.len(),
            axes@ == differing_axes(old_shape@.take(i as int), new_shape@.take(i as int)),
            forall|k: int|
                0 <= k < axes@.len() ==> (#[trigger] axes@[k]) < i
                    && old_shape@[axes@[k] as int] != new_shape@[axes@[k] as int],
            forall|j: int|
                0 <= j < i && old_shape@[j] != new_shape@[j] ==> axes@.contains(j as usize),
            forall|k1: int, k2: int| 0 <= k1 < k2 < axes@.len() ==> axes@[k1] < axes@[k2],
        decreases old_shape@.len() - i,
    {
        let ghost prev = axes@;
        if old_shape[i] != new_shape[i] {
            axes.push(i);
            proof {
                assert forall|j: int|
                    0 <= j < i + 1 && old_shape@[j] != new_shape@[j]
                        implies axes@.contains(j as usize) by {
                    if j < i {
                        let k = choose|k: int| 0 <= k < prev.len() && prev[k] == j as usize;
                        assert(axes@[k] == j as usize);
                    } else {
                        assert(axes@[axes@.len() - 1] == i);
                    }
                }
            }
        }
        proof {
            let ot = old_shape@.take(i + 1);
            let nt = new_shape@.take(i + 1);
            assert(ot.drop_last() =~= old_shape@.take(i as int));
            assert(nt.drop_last() =~= new_shape@.take(i as int));
            assert(ot.last() == old_shape@[i as int]);
            assert(nt.last() == new_shape@[i as int]);
            if old_shape@[i as int] != new_shape@[i as int] {
                assert(axes@ =~= prev + seq![i]);
            } else {
                assert(axes@ =~= prev + Seq::<usize>::empty());
            }
            assert(axes@ == differing_axes(ot, nt));
        }
        i = i + 1;
    }
    proof {
        assert(old_shape@.take(old_shape@.len() as int) =~= old_shape@);
        assert(new_shape@.take(new_shape@.len() as int) =~= new_shape@);
    }
    axes
}

/// Identical shapes disagree nowhere: an axis list whose every entry marks
/// a disagreement between two equal shapes, as the contract of
/// [`shape_to_axes`] describes, must be empty.
pub proof fn lemma_identical_shapes_give_no_axes(s: Seq<usize>, t: Seq<usize>, axes: Seq<usize>)
    requires
        s == t,
        forall|k: int|
            0 <= k < axes.len() ==> (#[trigger] axes[k]) < s.len()
                && s[axes[k] as int] != t[axes[k] as int],
    ensures
        axes.len() == 0,
{
    if axes.len() > 0 {
        assert(axes[0] < s.len());
        assert(s[axes[0] as int] != t[axes[0] as int]);
    }
}

/// An inverse is inverse on both sides: if `q` undoes the permutation `p` at
/// every index, then `q` is itself a permutation and `p` undoes `q`.
pub proof fn lemma_inverse_permutation_self_consistent(p: Seq<usize>, q: Seq<usize>)
    requires
        is_permutation(p, p.len()),
        q.len() == p.len(),
        forall|i: int| 0 <= i < p.len() ==> q[p[i] as int] == i,
    ensures
        is_permutation(q, p.len()),
        forall|j: int| 0 <= j < p.len() ==> p[q[j] as int] == j,
{
    let n = p.len() as int;
    assert forall|j: int| 0 <= j < n implies (#[trigger] q[j]) < n && p[q[j] as int] == j by {
        assert(occurs_in(p, j));
        let k = choose|k: int| 0 <= k < p.len() && p[k] == j;
        assert(q[p[k] as int] == k);
    }
    assert forall|j1: int, j2: int|
        #![trigger q[j1], q[j2]]
        0 <= j1 < n && 0 <= j2 < n && j1 != j2 implies q[j1] != q[j2] by {
        assert(p[q[j1] as int] == j1);
        assert(p[q[j2] as int] == j2);
    }
    assert forall|v: int| 0 <= v < n implies #[trigger] occurs_in(q, v) by {
        assert(q[p[v] as int] == v);
    }
}

/// Index sort, as used to invert a permutation: the result holds the
/// position in `v` of each value, so it is the permutation that undoes `v`.
pub fn argsort(v: &[usize]) -> (r: Vec<usize>)
    requires
        is_permutation(v@, v@.len() as nat),
    ensures
        r@ == inverse_of(v@),
        is_permutation(r@, v@.len() as nat),
        forall|i: int| 0 <= i < v@.len() ==> r@[v@[i] as int] == i,
        forall|j: int| 0 <= j < v@.len() ==> v@[r@[j] as int] == j,
{
    let n = v.len();
    let mut r: Vec<usize> = Vec::new();
    let mut i: usize = 0;
    while i < n
        invariant
            r@.len() == i,
            i <= n,
            forall|k: int| 0 <= k < i ==> (#[trigger] r@[k]) == 0,
        decreases n - i,
    {
        r.push(0);
        i = i + 1;
    }
    let mut i: usize = 0;
    while i < n
        invariant
            n == v@.len(),
            r@.len() == n,
            i <= n,
            is_permutation(v@, n as nat),
            forall|k: int| 0 <= k < i ==> r@[v@[k] as int] == k,
        decreases n - i,
    {
        let idx = v[i];
        r[idx] = i;
        i = i + 1;
    }
    proof {
        lemma_inverse_permutation_self_consistent(v@, r@);
        assert forall|j: int| 0 <= j < v@.len() implies r@[j] == inverse_of(v@)[j] by {
            assert(occurs_in(v@, j));
            let i0 = choose|i: int| 0 <= i < v@.len() && v@[i] == j;
            assert(v@[r@[j] as int] == j);
        }
        assert(r@ =~= inverse_of(v@));
    }
    r
}

} // verus!
