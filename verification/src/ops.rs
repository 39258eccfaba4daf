//! The seven primitive op implementations: for each, the forward
//! computation with the state it captures, and the backward rule that turns
//! an upstream gradient into a gradient with respect to the input.
//!
//! Every op implements the two capability traits [`UnaryOp`] (forward) and
//! [`UnaryDiffOp`] (backward), so an external tape can record forward calls
//! and later drive the backward traversal through one interface. Each impl
//! states its exact contract in the `forward_req`/`forward_post` and
//! `backward_req`/`backward_post` predicates.

use vstd::prelude::*;

use crate::shape::{
    argsort, differing_axes, expandable_to, inverse_of, is_permutation, occurs_in,
    permuted_shape, reduced_shape, shape_to_axes,
};
use crate::tensor::{shape_product, Diffable};

verus! {

/// The forward side of a primitive op: compute the result and capture the
/// state the backward rule will need. `forward_post` pins both the captured
/// state and the returned tensor exactly.
pub trait UnaryOp<T: Diffable>: Sized {
    /// The op-specific immutable parameters of the forward call.
    type Args: ?Sized;

    /// When the forward computation accepts `a` and `args`.
    spec fn forward_req(a: T, args: &Self::Args) -> bool;

    /// What the forward computation returns: how the captured state and the
    /// output relate to the input and the arguments.
    spec fn forward_post(a: T, args: &Self::Args, state: Self, out: T) -> bool;

    /// Forward: compute the primitive and return replay state alongside the
    /// result.
    fn f(a: &T, args: &Self::Args) -> (r: (Self, T))
        requires
            Self::forward_req(*a, args),
        ensures
            Self::forward_post(*a, args, r.0, r.1),
    ;
}

/// The backward side of a primitive op: a pure function from captured state
/// and one upstream gradient to one input gradient. `backward_post` pins
/// the returned gradient exactly.
pub trait UnaryDiffOp<T: Diffable>: Sized {
    /// When the captured state accepts `df` as an upstream gradient.
    spec fn backward_req(&self, df: T) -> bool;

    /// What the backward rule returns for the gradient `df`.
    spec fn backward_post(&self, df: T, r: T) -> bool;

    /// Backward: turn the upstream gradient into the input gradient.
    fn df_dfda(&self, df: &T) -> (r: T)
        requires
            self.backward_req(*df),
        ensures
            self.backward_post(*df, r),
    ;
}

/// The tie-splitting backward value of a maximum reduction, as a
/// composition of backend operations: a 0/1 mask of the positions that
/// attain the maximum of their reduction group, divided by the per-group
/// count of tied maxima, times the upstream gradient broadcast to the
/// input's shape.
pub open spec fn max_backward_spec<T: Diffable>(input: T, output: T, df: T) -> T {
    let full = input.shape_spec();
    let mask = input.elementwise_eq_spec(output.expand_spec(full));
    let div = mask.sum_spec(differing_axes(full, df.shape_spec())).expand_spec(full);
    mask.elementwise_div_spec(div).elementwise_mul_spec(df.expand_spec(full))
}

/// Reduction by summation. Captures the input's pre-reduction shape.
pub struct SumOp(pub Vec<usize>);

impl<T: Diffable> UnaryOp<T> for SumOp {
    type Args = [usize];

    open spec fn forward_req(a: T, axes: &[usize]) -> bool {
        forall|k: int| 0 <= k < axes@.len() ==> (#[trigger] axes@[k]) < a.shape_spec().len()
    }

    open spec fn forward_post(a: T, axes: &[usize], state: SumOp, out: T) -> bool {
        &&& state.0@ == a.shape_spec()
        &&& out == a.sum_spec(axes@)
        &&& out.shape_spec() == reduced_shape(a.shape_spec(), axes@)
    }

    /// Forward: sum over `axes`; capture the input's shape for replay.
    fn f(a: &T, axes: &[usize]) -> (SumOp, T) {
        let r = a.sum(axes);
        (SumOp(a.shape()), r)
    }
}

impl<T: Diffable> UnaryDiffOp<T> for SumOp {
    open spec fn backward_req(&self, df: T) -> bool {
        expandable_to(df.shape_spec(), self.0@)
    }

    open spec fn backward_post(&self, df: T, r: T) -> bool {
        &&& r == df.expand_spec(self.0@)
        &&& r.shape_spec() == self.0@
    }

    /// Backward: broadcast the upstream gradient back across every reduced
    /// position. The derivative of a sum with respect to each contributing
    /// element is 1, so the gradient is replicated, not divided.
    fn df_dfda(&self, df: &T) -> (r: T) {
        df.expand(self.0.as_slice())
    }
}

/// Reduction by maximum, with tie-splitting in the backward rule. Captures
/// a copy of the input and a copy of the reduced output.
pub struct MaxOp<T>(pub T, pub T);

impl<T: Diffable> UnaryOp<T> for MaxOp<T> {
    type Args = [usize];

    open spec fn forward_req(a: T, axes: &[usize]) -> bool {
        forall|k: int| 0 <= k < axes@.len() ==> (#[trigger] axes@[k]) < a.shape_spec().len()
    }

    open spec fn forward_post(a: T, axes: &[usize], state: MaxOp<T>, out: T) -> bool {
        &&& state.0 == a
        &&& state.1 == a.max_spec(axes@)
        &&& out == a.max_spec(axes@)
        &&& out.shape_spec() == reduced_shape(a.shape_spec(), axes@)
    }

    /// Forward: maximum over `axes`; capture copies of the input and of the
    /// result for replay.
    fn f(a: &T, axes: &[usize]) -> (MaxOp<T>, T) {
        let r = a.max(axes);
        let state = MaxOp(a.dup(), r.dup());
        (state, r)
    }
}

impl<T: Diffable> UnaryDiffOp<T> for MaxOp<T> {
    open spec fn backward_req(&self, df: T) -> bool {
        &&& expandable_to(self.1.shape_spec(), self.0.shape_spec())
        &&& df.shape_spec() == self.1.shape_spec()
    }

    open spec fn backward_post(&self, df: T, r: T) -> bool {
        &&& r == max_backward_spec(self.0, self.1, df)
        &&& r.shape_spec() == self.0.shape_spec()
    }

    /// Backward: mark every position that attains the maximum within its
    /// reduction group, count the tied maxima per group, and give each tied
    /// position an equal share of the upstream gradient.
    fn df_dfda(&self, df: &T) -> (r: T) {
        let full = self.0.shape();
        let max_expanded = self.1.expand(full.as_slice());
        let max_is_1s = self.0.elementwise_eq(&max_expanded);
        let m_shape = max_is_1s.shape();
        let d_shape = df.shape();
        let axes = shape_to_axes(m_shape.as_slice(), d_shape.as_slice());
        let div = max_is_1s.sum(axes.as_slice()).expand(full.as_slice());
        let max_is_amount = max_is_1s.elementwise_div(&div);
        let df_expanded = df.expand(full.as_slice());
        max_is_amount.elementwise_mul(&df_expanded)
    }
}

/// Broadcast. Captures the input's pre-expansion shape.
pub struct ExpandOp(pub Vec<usize>);

impl<T: Diffable> UnaryOp<T> for ExpandOp {
    type Args = [usize];

    open spec fn forward_req(a: T, new_shape: &[usize]) -> bool {
        expandable_to(a.shape_spec(), new_shape@)
    }

    open spec fn forward_post(a: T, new_shape: &[usize], state: ExpandOp, out: T) -> bool {
        &&& state.0@ == a.shape_spec()
        &&& out == a.expand_spec(new_shape@)
        &&& out.shape_spec() == new_shape@
    }

    /// Forward: broadcast to `new_shape`; capture the input's shape.
    fn f(a: &T, new_shape: &[usize]) -> (ExpandOp, T) {
        let r = a.expand(new_shape);
        (ExpandOp(a.shape()), r)
    }
}

impl<T: Diffable> UnaryDiffOp<T> for ExpandOp {
    open spec fn backward_req(&self, df: T) -> bool {
        expandable_to(self.0@, df.shape_spec())
    }

    open spec fn backward_post(&self, df: T, r: T) -> bool {
        &&& r == df.sum_spec(differing_axes(df.shape_spec(), self.0@))
        &&& r.shape_spec() == self.0@
    }

    /// Backward: sum over exactly the broadcast axes, collapsing back to the
    /// input's shape. Summation is the adjoint of broadcasting: every
    /// replicated copy contributed additively downstream.
    fn df_dfda(&self, df: &T) -> (r: T) {
        let d_shape = df.shape();
        let axes = shape_to_axes(d_shape.as_slice(), self.0.as_slice());
        let r = df.sum(axes.as_slice());
        proof {
            let out = reduced_shape(df.shape_spec(), axes@);
            assert forall|i: int| 0 <= i < self.0@.len() implies out[i] == self.0@[i] by {
                if axes@.contains(i as usize) {
                    let k = choose|k: int| 0 <= k < axes@.len() && axes@[k] == i as usize;
                    assert(axes@[k] < d_shape@.len());
                    assert(d_shape@[axes@[k] as int] != self.0@[axes@[k] as int]);
                    assert(df.shape_spec()[i] != self.0@[i]);
                } else {
                    assert(df.shape_spec()[i] == self.0@[i]);
                }
            }
            assert(out =~= self.0@);
        }
        r
    }
}

/// Bijective relabeling. Captures the input's pre-reshape shape.
pub struct ReshapeOp(pub Vec<usize>);

impl<T: Diffable> UnaryOp<T> for ReshapeOp {
    type Args = [usize];

    open spec fn forward_req(a: T, new_shape: &[usize]) -> bool {
        shape_product(new_shape@) == shape_product(a.shape_spec())
    }

    open spec fn forward_post(a: T, new_shape: &[usize], state: ReshapeOp, out: T) -> bool {
        &&& state.0@ == a.shape_spec()
        &&& out == a.reshape_spec(new_shape@)
        &&& out.shape_spec() == new_shape@
    }

    /// Forward: reshape to `new_shape`, which must describe the same number
    /// of elements; capture the input's shape.
    fn f(a: &T, new_shape: &[usize]) -> (ReshapeOp, T) {
        let r = a.reshape(new_shape);
        (ReshapeOp(a.shape()), r)
    }
}

impl<T: Diffable> UnaryDiffOp<T> for ReshapeOp {
    open spec fn backward_req(&self, df: T) -> bool {
        shape_product(self.0@) == shape_product(df.shape_spec())
    }

    open spec fn backward_post(&self, df: T, r: T) -> bool {
        &&& r == df.reshape_spec(self.0@)
        &&& r.shape_spec() == self.0@
    }

    /// Backward: reshape the upstream gradient back to the captured shape.
    /// Reshape moves no data, so its adjoint is the inverse reshape.
    fn df_dfda(&self, df: &T) -> (r: T) {
        df.reshape(self.0.as_slice())
    }
}

/// Axis reordering. Captures the permutation order that was applied.
pub struct PermuteOp(pub Vec<usize>);

impl<T: Diffable> UnaryOp<T> for PermuteOp {
    type Args = [usize];

    open spec fn forward_req(a: T, order: &[usize]) -> bool {
        is_permutation(order@, a.shape_spec().len())
    }

    open spec fn forward_post(a: T, order: &[usize], state: PermuteOp, out: T) -> bool {
        &&& state.0@ == order@
        &&& out == a.permute_spec(order@)
        &&& out.shape_spec() == permuted_shape(a.shape_spec(), order@)
    }

    /// Forward: reorder axes by `order`; capture the order.
    fn f(a: &T, order: &[usize]) -> (PermuteOp, T) {
        let out = a.permute(order);
        (PermuteOp(vstd::slice::slice_to_vec(order)), out)
    }
}

impl<T: Diffable> UnaryDiffOp<T> for PermuteOp {
    open spec fn backward_req(&self, df: T) -> bool {
        is_permutation(self.0@, df.shape_spec().len())
    }

    open spec fn backward_post(&self, df: T, r: T) -> bool {
        &&& r == df.permute_spec(inverse_of(self.0@))
        &&& r.shape_spec().len() == df.shape_spec().len()
        &&& forall|i: int|
            0 <= i < df.shape_spec().len()
                ==> r.shape_spec()[self.0@[i] as int] == df.shape_spec()[i]
    }

    /// Backward: permute the upstream gradient by the inverse of the
    /// captured order, undoing the axis reordering exactly: axis `order[i]`
    /// of the result is axis `i` of the gradient.
    fn df_dfda(&self, df: &T) -> (r: T) {
        let inverse = argsort(self.0.as_slice());
        df.permute(inverse.as_slice())
    }
}

/// Zero-extension. Captures, per axis, the `(start, end)` interval inside
/// the padded result where the original data sits.
pub struct PadOp(pub Vec<(usize, usize)>);

impl<T: Diffable> UnaryOp<T> for PadOp {
    type Args = [(usize, usize)];

    open spec fn forward_req(a: T, padding: &[(usize, usize)]) -> bool {
        &&& padding@.len() == a.shape_spec().len()
        &&& forall|i: int|
            0 <= i < padding@.len()
                ==> (#[trigger] padding@[i]).0 + a.shape_spec()[i] + padding@[i].1 <= usize::MAX
    }

    open spec fn forward_post(a: T, padding: &[(usize, usize)], state: PadOp, out: T) -> bool {
        &&& state.0@.len() == a.shape_spec().len()
        &&& forall|i: int|
            0 <= i < padding@.len()
                ==> (#[trigger] state.0@[i]).0 == padding@[i].0
                    && state.0@[i].1 == padding@[i].0 + a.shape_spec()[i]
        &&& out == a.pad_spec(padding@)
        &&& out.shape_spec().len() == a.shape_spec().len()
        &&& forall|i: int|
            0 <= i < padding@.len()
                ==> (#[trigger] out.shape_spec()[i])
                    == padding@[i].0 + a.shape_spec()[i] + padding@[i].1
    }

    /// Forward: pad by per-axis `(before, after)` amounts; capture, per
    /// axis, `(before, before + size)` — the interval holding the original
    /// data.
    fn f(a: &T, padding: &[(usize, usize)]) -> (PadOp, T) {
        let r = a.pad(padding);
        let s = a.shape();
        let mut limits: Vec<(usize, usize)> = Vec::new();
        let mut i: usize = 0;
        while i < padding.len()
            invariant
                i <= padding@.len(),
                padding@.len() == s@.len(),
                s@ == a.shape_spec(),
                forall|k: int|
                    0 <= k < padding@.len()
                        ==> (#[trigger] padding@[k]).0 + s@[k] + padding@[k].1 <= usize::MAX,
                limits@.len() == i,
                forall|k: int|
                    0 <= k < i
                        ==> (#[trigger] limits@[k]).0 == padding@[k].0
                            && limits@[k].1 == padding@[k].0 + s@[k],
            decreases padding@.len() - i,
        {
            let before = padding[i].0;
            limits.push((before, before + s[i]));
            i = i + 1;
        }
        (PadOp(limits), r)
    }
}

impl<T: Diffable> UnaryDiffOp<T> for PadOp {
    open spec fn backward_req(&self, df: T) -> bool {
        &&& self.0@.len() == df.shape_spec().len()
        &&& forall|i: int|
            0 <= i < self.0@.len()
                ==> (#[trigger] self.0@[i]).0 <= self.0@[i].1
                    && self.0@[i].1 <= df.shape_spec()[i]
    }

    open spec fn backward_post(&self, df: T, r: T) -> bool {
        &&& r == df.crop_spec(self.0@)
        &&& r.shape_spec().len() == df.shape_spec().len()
        &&& forall|i: int|
            0 <= i < self.0@.len()
                ==> (#[trigger] r.shape_spec()[i]) == self.0@[i].1 - self.0@[i].0
    }

    /// Backward: crop the upstream gradient to the captured intervals.
    /// Gradient flows only to the original region; padded positions have no
    /// dependency on the input, so their gradient is discarded.
    fn df_dfda(&self, df: &T) -> (r: T) {
        df.crop(self.0.as_slice())
    }
}

/// Sub-region selection. Captures, per axis, the `(before, after)` pad
/// amounts that restore the cropped tensor to its pre-crop extent.
pub struct CropOp(pub Vec<(usize, usize)>);

impl<T: Diffable> UnaryOp<T> for CropOp {
    type Args = [(usize, usize)];

    open spec fn forward_req(a: T, limits: &[(usize, usize)]) -> bool {
        &&& limits@.len() == a.shape_spec().len()
        &&& forall|i: int|
            0 <= i < limits@.len()
                ==> (#[trigger] limits@[i]).0 <= limits@[i].1
                    && limits@[i].1 <= a.shape_spec()[i]
    }

    open spec fn forward_post(a: T, limits: &[(usize, usize)], state: CropOp, out: T) -> bool {
        &&& state.0@.len() == a.shape_spec().len()
        &&& forall|i: int|
            0 <= i < limits@.len()
                ==> (#[trigger] state.0@[i]).0 == limits@[i].0
                    && state.0@[i].1 == a.shape_spec()[i] - limits@[i].1
        &&& out == a.crop_spec(limits@)
        &&& out.shape_spec().len() == a.shape_spec().len()
        &&& forall|i: int|
            0 <= i < limits@.len()
                ==> (#[trigger] out.shape_spec()[i]) == limits@[i].1 - limits@[i].0
    }

    /// Forward: crop to per-axis `(start, end)` limits; capture, per axis,
    /// `(start, size - end)` — the pad amounts that restore the original
    /// extent.
    fn f(a: &T, limits: &[(usize, usize)]) -> (CropOp, T) {
        let r = a.crop(limits);
        let s = a.shape();
        let mut padding: Vec<(usize, usize)> = Vec::new();
        let mut i: usize = 0;
        while i < limits.len()
            invariant
                i <= limits@.len(),
                limits@.len() == s@.len(),
                s@ == a.shape_spec(),
                forall|k: int|
                    0 <= k < limits@.len()
                        ==> (#[trigger] limits@[k]).0 <= limits@[k].1 && limits@[k].1 <= s@[k],
                padding@.len() == i,
                forall|k: int|
                    0 <= k < i
                        ==> (#[trigger] padding@[k]).0 == limits@[k].0
                            && padding@[k].1 == s@[k] - limits@[k].1,
            decreases limits@.len() - i,
        {
            let (l0, l1) = limits[i];
            padding.push((l0, s[i] - l1));
            i = i + 1;
        }
        (CropOp(padding), r)
    }
}

impl<T: Diffable> UnaryDiffOp<T> for CropOp {
    open spec fn backward_req(&self, df: T) -> bool {
        &&& self.0@.len() == df.shape_spec().len()
        &&& forall|i: int|
            0 <= i < self.0@.len()
                ==> (#[trigger] self.0@[i]).0 + df.shape_spec()[i] + self.0@[i].1 <= usize::MAX
    }

    open spec fn backward_post(&self, df: T, r: T) -> bool {
        &&& r == df.pad_spec(self.0@)
        &&& r.shape_spec().len() == df.shape_spec().len()
        &&& forall|i: int|
            0 <= i < self.0@.len()
                ==> (#[trigger] r.shape_spec()[i])
                    == self.0@[i].0 + df.shape_spec()[i] + self.0@[i].1
    }

    /// Backward: pad the upstream gradient back out by the captured
    /// amounts, zero-filling the discarded region. Dropped elements have no
    /// gradient contribution from this op.
    fn df_dfda(&self, df: &T) -> (r: T) {
        df.pad(self.0.as_slice())
    }
}

/// Round trip through permutation: a gradient shaped like the output of
/// `PermuteOp`'s forward on an input of shape `s`, carried backward as
/// `PermuteOp`'s backward rule promises, has shape `s` again.
pub proof fn lemma_permute_round_trip(s: Seq<usize>, o: Seq<usize>, g: Seq<usize>)
    requires
        is_permutation(o, s.len()),
        g.len() == s.len(),
        forall|i: int| 0 <= i < s.len() ==> g[o[i] as int] == permuted_shape(s, o)[i],
    ensures
        g == s,
{
    let n = s.len() as int;
    assert forall|j: int| 0 <= j < n implies g[j] == s[j] by {
        assert(occurs_in(o, j));
        let i = choose|i: int| 0 <= i < o.len() && o[i] == j;
        assert(g[o[i] as int] == permuted_shape(s, o)[i]);
        assert(permuted_shape(s, o)[i] == s[o[i] as int]);
    }
    assert(g =~= s);
}

/// Round trip through padding: with the intervals that `PadOp`'s forward
/// captures for an input of shape `s`, the backward crop of a gradient
/// shaped like the padded output has shape `s` again.
pub proof fn lemma_pad_round_trip(
    s: Seq<usize>,
    padding: Seq<(usize, usize)>,
    limits: Seq<(usize, usize)>,
    r: Seq<usize>,
)
    requires
        padding.len() == s.len(),
        limits.len() == s.len(),
        forall|i: int|
            0 <= i < s.len()
                ==> (#[trigger] limits[i]).0 == padding[i].0
                    && limits[i].1 == padding[i].0 + s[i],
        r.len() == s.len(),
        forall|i: int| 0 <= i < s.len() ==> (#[trigger] r[i]) == limits[i].1 - limits[i].0,
    ensures
        r == s,
{
    assert(r =~= s);
}

/// Round trip through cropping: with the pad amounts that `CropOp`'s
/// forward captures for an input of shape `s` and limits `limits`, the
/// backward pad of a gradient shaped like the cropped output has shape `s`
/// again.
pub proof fn lemma_crop_round_trip(
    s: Seq<usize>,
    limits: Seq<(usize, usize)>,
    padding: Seq<(usize, usize)>,
    g: Seq<usize>,
    r: Seq<usize>,
)
    requires
        limits.len() == s.len(),
        forall|i: int|
            0 <= i < s.len()
                ==> (#[trigger] limits[i]).0 <= limits[i].1 && limits[i].1 <= s[i],
        padding.len() == s.len(),
        forall|i: int|
            0 <= i < s.len()
                ==> (#[trigger] padding[i]).0 == limits[i].0
                    && padding[i].1 == s[i] - limits[i].1,
        g.len() == s.len(),
        forall|i: int| 0 <= i < s.len() ==> (#[trigger] g[i]) == limits[i].1 - limits[i].0,
        r.len() == s.len(),
        forall|i: int| 0 <= i < s.len() ==> (#[trigger] r[i]) == padding[i].0 + g[i] + padding[i].1,
    ensures
        r == s,
{
    assert(r =~= s);
}

} // verus!
