//! The capability contract that this crate consumes from a tensor backend.
//!
//! A tensor is an immutable multi-dimensional array value. Each executable
//! operation is paired with a spec-level observer (`sum` with [`Diffable::sum_spec`],
//! and so on): the observer names the backend's result as a mathematical
//! function of the operands, and the executable method promises to return
//! exactly that value, with the stated shape. Contracts elsewhere in the
//! crate can then pin a computation to the precise composition of backend
//! calls it makes, while element layout and arithmetic stay the backend's
//! concern.

use vstd::prelude::*;

use crate::shape::{expandable_to, is_permutation, permuted_shape, reduced_shape};

verus! {

/// The number of elements a shape describes: the product of its sizes.
pub open spec fn shape_product(s: Seq<usize>) -> int
    decreases s.len(),
{
    if s.len() == 0 {
        1
    } else {
        s[0] * shape_product(s.drop_first())
    }
}

/// The minimal set of operations any tensor type must support for the
/// differentiation rules in [`crate::ops`]. Implementations must produce new
/// tensors, never mutate in place, must return the value their observer
/// names, and must transform shapes exactly as the contracts state.
pub trait Diffable: Sized {
    /// The shape of the tensor: an ordered sequence of non-negative
    /// dimension sizes, whose length is the tensor's rank.
    spec fn shape_spec(&self) -> Seq<usize>;

    /// The value of the sum reduction over `axes`.
    spec fn sum_spec(self, axes: Seq<usize>) -> Self;

    /// The value of the maximum reduction over `axes`.
    spec fn max_spec(self, axes: Seq<usize>) -> Self;

    /// The value of the broadcast to `new_shape`.
    spec fn expand_spec(self, new_shape: Seq<usize>) -> Self;

    /// The value of the reshape to `new_shape`.
    spec fn reshape_spec(self, new_shape: Seq<usize>) -> Self;

    /// The value of the axis reordering by `order`.
    spec fn permute_spec(self, order: Seq<usize>) -> Self;

    /// The value of the zero-extension by `padding`.
    spec fn pad_spec(self, padding: Seq<(usize, usize)>) -> Self;

    /// The value of the sub-region selection by `limits`.
    spec fn crop_spec(self, limits: Seq<(usize, usize)>) -> Self;

    /// The value of the element-wise equality mask against `other`.
    spec fn elementwise_eq_spec(self, other: Self) -> Self;

    /// The value of the element-wise division by `other`.
    spec fn elementwise_div_spec(self, other: Self) -> Self;

    /// The value of the element-wise multiplication with `other`.
    spec fn elementwise_mul_spec(self, other: Self) -> Self;

    /// The shape, as a vector of per-axis sizes.
    fn shape(&self) -> (s: Vec<usize>)
        ensures
            s@ == self.shape_spec(),
    ;

    /// An independently owned copy of the tensor — the same value — as
    /// captured by ops whose backward rule needs the forward values again.
    fn dup(&self) -> (r: Self)
        ensures
            r == *self,
    ;

    /// Sum over the given axes, keeping rank: each reduced axis collapses
    /// to size 1.
    fn sum(&self, axes: &[usize]) -> (r: Self)
        requires
            forall|k: int| 0 <= k < axes@.len() ==> (#[trigger] axes@[k]) < self.shape_spec().len(),
        ensures
            r == self.sum_spec(axes@),
            r.shape_spec() == reduced_shape(self.shape_spec(), axes@),
    ;

    /// Maximum over the given axes, keeping rank: each reduced axis
    /// collapses to size 1.
    fn max(&self, axes: &[usize]) -> (r: Self)
        requires
            forall|k: int| 0 <= k < axes@.len() ==> (#[trigger] axes@[k]) < self.shape_spec().len(),
        ensures
            r == self.max_spec(axes@),
            r.shape_spec() == reduced_shape(self.shape_spec(), axes@),
    ;

    /// Broadcast to `new_shape`, replicating along every axis of size 1.
    fn expand(&self, new_shape: &[usize]) -> (r: Self)
        requires
            expandable_to(self.shape_spec(), new_shape@),
        ensures
            r == self.expand_spec(new_shape@),
            r.shape_spec() == new_shape@,
    ;

    /// Reinterpret the same elements under `new_shape`, which must describe
    /// the same number of elements.
    fn reshape(&self, new_shape: &[usize]) -> (r: Self)
        requires
            shape_product(new_shape@) == shape_product(self.shape_spec()),
        ensures
            r == self.reshape_spec(new_shape@),
            r.shape_spec() == new_shape@,
    ;

    /// Reorder axes: axis `i` of the result is axis `order[i]` of the
    /// original.
    fn permute(&self, order: &[usize]) -> (r: Self)
        requires
            is_permutation(order@, self.shape_spec().len()),
        ensures
            r == self.permute_spec(order@),
            r.shape_spec() == permuted_shape(self.shape_spec(), order@),
    ;

    /// Zero-extend each axis by the given `(before, after)` amounts.
    fn pad(&self, padding: &[(usize, usize)]) -> (r: Self)
        requires
            padding@.len() == self.shape_spec().len(),
            forall|i: int|
                0 <= i < padding@.len()
                    ==> (#[trigger] padding@[i]).0 + self.shape_spec()[i] + padding@[i].1
                        <= usize::MAX,
        ensures
            r == self.pad_spec(padding@),
            r.shape_spec().len() == self.shape_spec().len(),
            forall|i: int|
                0 <= i < padding@.len()
                    ==> (#[trigger] r.shape_spec()[i])
                        == padding@[i].0 + self.shape_spec()[i] + padding@[i].1,
    ;

    /// Select the sub-region bounded per axis by `(start, end)` limits.
    fn crop(&self, limits: &[(usize, usize)]) -> (r: Self)
        requires
            limits@.len() == self.shape_spec().len(),
            forall|i: int|
                0 <= i < limits@.len()
                    ==> (#[trigger] limits@[i]).0 <= limits@[i].1
                        && limits@[i].1 <= self.shape_spec()[i],
        ensures
            r == self.crop_spec(limits@),
            r.shape_spec().len() == self.shape_spec().len(),
            forall|i: int|
                0 <= i < limits@.len()
                    ==> (#[trigger] r.shape_spec()[i]) == limits@[i].1 - limits@[i].0,
    ;

    /// Element-wise equality against a tensor of the same shape, as a 0/1
    /// mask.
    fn elementwise_eq(&self, other: &Self) -> (r: Self)
        requires
            other.shape_spec() == self.shape_spec(),
        ensures
            r == self.elementwise_eq_spec(*other),
            r.shape_spec() == self.shape_spec(),
    ;

    /// Element-wise division by a tensor of the same shape.
    fn elementwise_div(&self, other: &Self) -> (r: Self)
        requires
            other.shape_spec() == self.shape_spec(),
        ensures
            r == self.elementwise_div_spec(*other),
            r.shape_spec() == self.shape_spec(),
    ;

    /// Element-wise multiplication with a tensor of the same shape.
    fn elementwise_mul(&self, other: &Self) -> (r: Self)
        requires
            other.shape_spec() == self.shape_spec(),
        ensures
            r == self.elementwise_mul_spec(*other),
            r.shape_spec() == self.shape_spec(),
    ;
}

} // verus!
